//! Decimal rendering of whole numbers and the `M:SS` / `H:MM:SS` clock text.

use vstd::prelude::*;

verus! {

/// The ASCII digit for `d` (meaningful for `d < 10`).
pub open spec fn digit_char(d: nat) -> char {
    seq!['0', '1', '2', '3', '4', '5', '6', '7', '8', '9'][d as int]
}

/// Decimal notation of `n`, most significant digit first, no leading zeros.
pub open spec fn decimal(n: nat) -> Seq<char>
    decreases n,
{
    if n < 10 {
        seq![digit_char(n)]
    } else {
        decimal(n / 10).push(digit_char(n % 10))
    }
}

/// `n` written with at least two digits (a leading zero below ten).
pub open spec fn two_digits(n: nat) -> Seq<char> {
    if n < 10 {
        seq!['0'] + decimal(n)
    } else {
        decimal(n)
    }
}

/// The clock text for a count of whole seconds: `M:SS` below one hour,
/// `H:MM:SS` from one hour on.
pub open spec fn clock_text(total: nat) -> Seq<char> {
    let h = total / 3600;
    let m = (total % 3600) / 60;
    let s = total % 60;
    if h > 0 {
        decimal(h) + seq![':'] + two_digits(m) + seq![':'] + two_digits(s)
    } else {
        decimal(m) + seq![':'] + two_digits(s)
    }
}

/// The number a string of decimal digits denotes.
pub open spec fn digits_value(s: Seq<char>) -> nat
    decreases s.len(),
{
    if s.len() == 0 {
        0
    } else {
        digits_value(s.drop_last()) * 10 + ((s.last() as u32) - ('0' as u32)) as nat
    }
}

/// The character is an ASCII digit.
pub open spec fn is_digit(c: char) -> bool {
    '0' as u32 <= c as u32 <= '9' as u32
}

/// Decimal notation is faithful: it is made of digits, it reads back as the
/// number, and it has no leading zero (except for zero itself).
pub proof fn lemma_decimal_faithful(n: nat)
    ensures
        decimal(n).len() >= 1,
        forall|i: int| 0 <= i < decimal(n).len() ==> is_digit(#[trigger] decimal(n)[i]),
        digits_value(decimal(n)) == n,
        decimal(n).len() > 1 ==> decimal(n)[0] != '0',
        decimal(n).len() == 1 <==> n < 10,
    decreases n,
{
    lemma_digit_char(n % 10);
    if n >= 10 {
        lemma_decimal_faithful(n / 10);
        assert(decimal(n).drop_last() =~= decimal(n / 10));
        assert(n == (n / 10) * 10 + n % 10);
        assert(decimal(n).last() == digit_char(n % 10));
        assert(digits_value(decimal(n)) == digits_value(decimal(n / 10)) * 10 + (n % 10));
        if decimal(n / 10).len() == 1 {
            lemma_digit_char(n / 10);
        }
    } else {
        assert(decimal(n).drop_last() =~= Seq::<char>::empty());
        assert(digits_value(Seq::<char>::empty()) == 0);
        assert(decimal(n).last() == digit_char(n));
    }
}

/// The digit character of `d` is the character `d` places after `'0'`.
pub proof fn lemma_digit_char(d: nat)
    requires
        d < 10,
    ensures
        digit_char(d) as u32 == '0' as u32 + d,
        is_digit(digit_char(d)),
{
    let t = seq!['0', '1', '2', '3', '4', '5', '6', '7', '8', '9'];
    assert(t[0] == '0' && t[1] == '1' && t[2] == '2' && t[3] == '3' && t[4] == '4' && t[5] == '5'
        && t[6] == '6' && t[7] == '7' && t[8] == '8' && t[9] == '9');
}

/// The clock text reads back as the number of seconds: hours, minutes and
/// seconds are decimal fields separated by colons, minutes and seconds are
/// below 60 and written with two digits (minutes only when hours are shown),
/// and they add up to the total.
pub proof fn lemma_clock_text_fields(total: nat)
    ensures
        total >= 3600 ==> clock_text(total) == decimal(total / 3600) + seq![':'] + two_digits(
            (total % 3600) / 60,
        ) + seq![':'] + two_digits(total % 60),
        total < 3600 ==> clock_text(total) == decimal(total / 60) + seq![':'] + two_digits(
            total % 60,
        ),
        (total % 3600) / 60 < 60,
        total % 60 < 60,
        (total / 3600) * 3600 + ((total % 3600) / 60) * 60 + total % 60 == total,
        digits_value(two_digits((total % 3600) / 60)) == (total % 3600) / 60,
        two_digits((total % 3600) / 60).len() == 2,
        digits_value(two_digits(total % 60)) == total % 60,
        two_digits(total % 60).len() == 2,
        digits_value(decimal(total / 3600)) == total / 3600,
        digits_value(decimal(total / 60)) == total / 60,
{
    let q = total / 3600;
    let r = total % 3600;
    let m = r / 60;
    let s = total % 60;
    assert(total == q * 3600 + r);
    assert(r == m * 60 + r % 60);
    assert(0 <= r % 60 < 60);
    vstd::arithmetic::div_mod::lemma_fundamental_div_mod_converse_mod(
        total as int,
        60,
        (q * 60 + m) as int,
        (r % 60) as int,
    );
    assert(s == r % 60);
    lemma_decimal_faithful(q);
    lemma_decimal_faithful(total / 60);
    if total < 3600 {
        assert(total % 3600 == total);
    }
    lemma_two_digits(m);
    lemma_two_digits(s);
}

/// Two-digit notation of a number below 100: two digits that read back as
/// the number.
pub proof fn lemma_two_digits(n: nat)
    requires
        n < 100,
    ensures
        two_digits(n).len() == 2,
        digits_value(two_digits(n)) == n,
        forall|i: int| 0 <= i < 2 ==> is_digit(#[trigger] two_digits(n)[i]),
{
    lemma_decimal_faithful(n);
    if n < 10 {
        let t = two_digits(n);
        assert(t.drop_last() =~= seq!['0']);
        assert(seq!['0'].drop_last() =~= Seq::<char>::empty());
        lemma_digit_char(0);
        assert(digits_value(Seq::<char>::empty()) == 0);
        assert(seq!['0'].last() == '0');
        assert(digits_value(seq!['0']) == 0);
        assert(t.last() == digit_char(n));
        lemma_digit_char(n);
        assert(t[0] == '0');
    } else {
        assert(decimal(n).drop_last() =~= decimal(n / 10));
        lemma_decimal_faithful(n / 10);
    }
}

fn digit_str(d: u64) -> (r: &'static str)
    requires
        d < 10,
    ensures
        r@ == seq![digit_char(d as nat)],
{
    proof {
        reveal_strlit("0");
        reveal_strlit("1");
        reveal_strlit("2");
        reveal_strlit("3");
        reveal_strlit("4");
        reveal_strlit("5");
        reveal_strlit("6");
        reveal_strlit("7");
        reveal_strlit("8");
        reveal_strlit("9");
    }
    match d {
        0 => "0",
        1 => "1",
        2 => "2",
        3 => "3",
        4 => "4",
        5 => "5",
        6 => "6",
        7 => "7",
        8 => "8",
        _ => "9",
    }
}

/// Appends the decimal notation of `n` to `out`.
pub fn push_decimal(out: &mut String, n: u64)
    ensures
        final(out)@ == old(out)@ + decimal(n as nat),
    decreases n,
{
    if n >= 10 {
        push_decimal(out, n / 10);
    }
    out.append(digit_str(n % 10));
    proof {
        if n >= 10 {
            assert(old(out)@ + decimal(n as nat) =~= old(out)@ + decimal((n / 10) as nat) + seq![
                digit_char((n % 10) as nat),
            ]);
        }
    }
}

/// The decimal notation of `n`.
pub fn decimal_string(n: u64) -> (r: String)
    ensures
        r@ == decimal(n as nat),
{
    let mut out = String::new();
    push_decimal(&mut out, n);
    proof {
        assert(Seq::<char>::empty() + decimal(n as nat) =~= decimal(n as nat));
    }
    out
}

fn push_two_digits(out: &mut String, n: u64)
    requires
        n < 100,
    ensures
        final(out)@ == old(out)@ + two_digits(n as nat),
{
    if n < 10 {
        proof {
            reveal_strlit("0");
        }
        out.append("0");
    }
    push_decimal(out, n);
    proof {
        if n < 10 {
            assert(old(out)@ + two_digits(n as nat) =~= old(out)@ + seq!['0'] + decimal(n as nat));
        }
    }
}

/// Formats a count of whole seconds as `M:SS`, or as `H:MM:SS` from one
/// hour on.
pub fn format_time(total_secs: u64) -> (r: String)
    ensures
        r@ == clock_text(total_secs as nat),
{
    let h = total_secs / 3600;
    let m = (total_secs % 3600) / 60;
    let s = total_secs % 60;
    let mut out = String::new();
    proof {
        reveal_strlit(":");
    }
    if h > 0 {
        push_decimal(&mut out, h);
        out.append(":");
        push_two_digits(&mut out, m);
    } else {
        push_decimal(&mut out, m);
    }
    out.append(":");
    push_two_digits(&mut out, s);
    proof {
        let t = total_secs as nat;
        if h > 0 {
            assert(out@ =~= clock_text(t));
        } else {
            assert(out@ =~= clock_text(t));
        }
    }
    out
}

} // verus!
