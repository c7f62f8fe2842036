//! Decimal rendering of integers, as `{}` prints them in a message text.
use vstd::prelude::*;

verus! {

/// The character of a decimal digit `d` (0 through 9).
pub open spec fn digit_char(d: nat) -> char
    recommends
        d < 10,
{
    if d == 0 {
        '0'
    } else if d == 1 {
        '1'
    } else if d == 2 {
        '2'
    } else if d == 3 {
        '3'
    } else if d == 4 {
        '4'
    } else if d == 5 {
        '5'
    } else if d == 6 {
        '6'
    } else if d == 7 {
        '7'
    } else if d == 8 {
        '8'
    } else {
        '9'
    }
}

/// The decimal digits of `n`, most significant first, without leading zeros
/// (zero itself is the single digit `0`).
pub open spec fn nat_digits(n: nat) -> Seq<char>
    decreases n,
{
    if n < 10 {
        seq![digit_char(n)]
    } else {
        nat_digits(n / 10).push(digit_char(n % 10))
    }
}

/// The decimal text of an integer: a minus sign before the digits of its
/// magnitude when it is negative.
pub open spec fn int_text(n: int) -> Seq<char> {
    if n < 0 {
        seq!['-'] + nat_digits((-n) as nat)
    } else {
        nat_digits(n as nat)
    }
}

/// The value of a decimal digit character, if it is one.
pub open spec fn digit_value(c: char) -> Option<nat> {
    if c == '0' {
        Some(0)
    } else if c == '1' {
        Some(1)
    } else if c == '2' {
        Some(2)
    } else if c == '3' {
        Some(3)
    } else if c == '4' {
        Some(4)
    } else if c == '5' {
        Some(5)
    } else if c == '6' {
        Some(6)
    } else if c == '7' {
        Some(7)
    } else if c == '8' {
        Some(8)
    } else if c == '9' {
        Some(9)
    } else {
        None
    }
}

/// The number that a text of decimal digits reads as, most significant digit
/// first (non-digits count as nought).
pub open spec fn read_decimal(s: Seq<char>) -> nat
    decreases s.len(),
{
    if s.len() == 0 {
        0
    } else {
        read_decimal(s.drop_last()) * 10 + match digit_value(s.last()) {
            Some(d) => d,
            None => 0,
        }
    }
}

/// Each digit's character reads back as the digit.
proof fn lemma_digit_read_back(d: nat)
    requires
        d < 10,
    ensures
        digit_value(digit_char(d)) == Some(d),
{
}

/// The digits of `n` are all decimal digits, there is at least one, the
/// first is not `0` unless `n` is nought, and they read back as `n`.
pub proof fn lemma_nat_digits_read_back(n: nat)
    ensures
        nat_digits(n).len() >= 1,
        forall|i: int| 0 <= i < nat_digits(n).len() ==> #[trigger] digit_value(nat_digits(n)[i]) is Some,
        n > 0 ==> nat_digits(n)[0] != '0',
        read_decimal(nat_digits(n)) == n,
    decreases n,
{
    lemma_digit_read_back(n % 10);
    if n >= 10 {
        lemma_nat_digits_read_back(n / 10);
        let s = nat_digits(n);
        assert(s.drop_last() =~= nat_digits(n / 10));
        assert(s.last() == digit_char(n % 10));
        assert(read_decimal(s) == read_decimal(nat_digits(n / 10)) * 10 + (n % 10));
        assert((n / 10) * 10 + n % 10 == n);
    } else {
        let s = nat_digits(n);
        assert(n % 10 == n);
        assert(s.drop_last() =~= Seq::<char>::empty());
        assert(s.last() == digit_char(n));
        assert(read_decimal(Seq::<char>::empty()) == 0);
        assert(read_decimal(s) == read_decimal(s.drop_last()) * 10 + n);
    }
}

/// The text of a number reads back as it: a minus sign comes exactly before a
/// negative number's magnitude, and the digits read back as the magnitude.
pub proof fn lemma_int_text_read_back(n: int)
    ensures
        n >= 0 ==> int_text(n) == nat_digits(n as nat) && read_decimal(int_text(n)) == n,
        n < 0 ==> int_text(n)[0] == '-' && int_text(n).subrange(1, int_text(n).len() as int)
            == nat_digits((-n) as nat) && read_decimal(
            int_text(n).subrange(1, int_text(n).len() as int),
        ) == -n,
{
    if n >= 0 {
        lemma_nat_digits_read_back(n as nat);
    } else {
        lemma_nat_digits_read_back((-n) as nat);
        let t = int_text(n);
        assert(t.subrange(1, t.len() as int) =~= nat_digits((-n) as nat));
    }
}

/// The one-character text of the digit `d`.
fn digit_text(d: u32) -> (text: &'static str)
    requires
        d < 10,
    ensures
        text@ == seq![digit_char(d as nat)],
{
    if d == 0 {
        proof { reveal_strlit("0"); }
        "0"
    } else if d == 1 {
        proof { reveal_strlit("1"); }
        "1"
    } else if d == 2 {
        proof { reveal_strlit("2"); }
        "2"
    } else if d == 3 {
        proof { reveal_strlit("3"); }
        "3"
    } else if d == 4 {
        proof { reveal_strlit("4"); }
        "4"
    } else if d == 5 {
        proof { reveal_strlit("5"); }
        "5"
    } else if d == 6 {
        proof { reveal_strlit("6"); }
        "6"
    } else if d == 7 {
        proof { reveal_strlit("7"); }
        "7"
    } else if d == 8 {
        proof { reveal_strlit("8"); }
        "8"
    } else {
        proof { reveal_strlit("9"); }
        "9"
    }
}

/// Appends the decimal digits of `n` to `out`.
fn push_digits(out: &mut String, n: u32)
    ensures
        final(out)@ == old(out)@ + nat_digits(n as nat),
    decreases n,
{
    if n < 10 {
        out.append(digit_text(n));
    } else {
        push_digits(out, n / 10);
        out.append(digit_text(n % 10));
        proof {
            assert(nat_digits(n as nat) == nat_digits((n / 10) as nat).push(
                digit_char((n % 10) as nat),
            ));
        }
    }
}

/// Appends the decimal text of `n` to `out`, as `{}` formats an `i32`.
pub fn push_i32(out: &mut String, n: i32)
    ensures
        final(out)@ == old(out)@ + int_text(n as int),
{
    if n < 0 {
        proof { reveal_strlit("-"); }
        out.append("-");
        let magnitude: u32 = if n == i32::MIN {
            2147483648u32
        } else {
            (-n) as u32
        };
        push_digits(out, magnitude);
        proof {
            assert(seq!['-'] + nat_digits(magnitude as nat) == int_text(n as int));
        }
    } else {
        push_digits(out, n as u32);
    }
}

/// The decimal text of `n`, as `{}` formats an `i32`.
pub fn i32_text(n: i32) -> (text: String)
    ensures
        text@ == int_text(n as int),
{
    let mut text = String::new();
    push_i32(&mut text, n);
    text
}

} // verus!
