//! Exact amounts as text: lamports written as a decimal number of SOL, to the
//! last lamport.
//!
//! The number is the whole part without leading zeros, and, where the amount
//! is no whole number of SOL, a point and the digits behind it up to the last
//! one that is not zero.
//!
//! The line of a withdrawal does not write its amount by itself: it takes the
//! text from its caller. This module is for callers who want that text exact;
//! one who divides in floating point gets a rounded number for large amounts.

use vstd::prelude::*;

verus! {

/// Number of lamports in one SOL.
pub const LAMPORTS_PER_SOL: u64 = 1_000_000_000;

/// The character that stands for the digit `d`.
pub open spec fn digit_char(d: nat) -> char {
    if d == 0 {
        '0'
    } else if d == 1 {
        '1'
    } else if d == 2 {
        '2'
    } else if d == 3 {
        '3'
    } else if d == 4 {
        '4'
    } else if d == 5 {
        '5'
    } else if d == 6 {
        '6'
    } else if d == 7 {
        '7'
    } else if d == 8 {
        '8'
    } else {
        '9'
    }
}

/// The decimal digits of `n`, without leading zeros: one digit for a number
/// below ten, else the digits of `n / 10` followed by the last digit of `n`.
pub open spec fn decimal_text(n: nat) -> Seq<char>
    decreases n,
{
    if n < 10 {
        seq![digit_char(n)]
    } else {
        decimal_text(n / 10).push(digit_char(n % 10))
    }
}

/// Whether `scale` is one of 1, 10, 100 and so on.
pub open spec fn power_of_ten(scale: nat) -> bool
    decreases scale,
{
    scale == 1 || (scale >= 10 && scale % 10 == 0 && power_of_ten(scale / 10))
}

/// Ten to the power `n`.
pub open spec fn ten_power(n: nat) -> nat
    decreases n,
{
    if n == 0 {
        1
    } else {
        10 * ten_power((n - 1) as nat)
    }
}

/// The digits of the fraction `part / scale` behind the point, up to the last
/// one that is not zero. `scale` is a power of ten and `part` is below it.
pub open spec fn fraction_text(part: nat, scale: nat) -> Seq<char>
    decreases scale,
{
    if part == 0 || scale < 10 {
        Seq::empty()
    } else {
        seq![digit_char(part / (scale / 10))] + fraction_text(part % (scale / 10), scale / 10)
    }
}

/// An amount of lamports as a number of SOL.
pub open spec fn sol_text(lamports: u64) -> Seq<char> {
    let whole = (lamports / LAMPORTS_PER_SOL) as nat;
    let part = (lamports % LAMPORTS_PER_SOL) as nat;
    if part == 0 {
        decimal_text(whole)
    } else {
        decimal_text(whole) + seq!['.'] + fraction_text(part, LAMPORTS_PER_SOL as nat)
    }
}

/// Whether `c` is one of the ten digits.
pub open spec fn is_digit(c: char) -> bool {
    c == '0' || c == '1' || c == '2' || c == '3' || c == '4' || c == '5' || c == '6' || c == '7'
        || c == '8' || c == '9'
}

/// The number that the digit `c` stands for.
pub open spec fn digit_value(c: char) -> nat {
    if c == '0' {
        0
    } else if c == '1' {
        1
    } else if c == '2' {
        2
    } else if c == '3' {
        3
    } else if c == '4' {
        4
    } else if c == '5' {
        5
    } else if c == '6' {
        6
    } else if c == '7' {
        7
    } else if c == '8' {
        8
    } else {
        9
    }
}

/// The number that decimal digits stand for, read as a whole number.
pub open spec fn number_of(digits: Seq<char>) -> nat
    decreases digits.len(),
{
    if digits.len() == 0 {
        0
    } else {
        10 * number_of(digits.drop_last()) + digit_value(digits.last())
    }
}

/// The number of parts out of `scale` that decimal digits stand for, read as
/// the digits behind a point: the first digit counts tenths of `scale`, the
/// second hundredths, and so on.
pub open spec fn fraction_of(digits: Seq<char>, scale: nat) -> nat
    decreases digits.len(),
{
    if digits.len() == 0 {
        0
    } else {
        digit_value(digits.first()) * (scale / 10) + fraction_of(digits.drop_first(), scale / 10)
    }
}

/// Where the first point stands in `text`, or the length of `text` where it
/// holds none.
pub open spec fn point_at(text: Seq<char>) -> int
    decreases text.len(),
{
    if text.len() == 0 || text.first() == '.' {
        0
    } else {
        1 + point_at(text.drop_first())
    }
}

/// The amount of lamports that a decimal number of SOL stands for: what
/// stands before the point counts whole SOL, what stands behind it parts of
/// one SOL.
pub open spec fn lamports_of(text: Seq<char>) -> nat {
    let point = point_at(text);
    let whole = number_of(text.take(point));
    if point < text.len() {
        whole * (LAMPORTS_PER_SOL as nat) + fraction_of(
            text.skip(point + 1),
            LAMPORTS_PER_SOL as nat,
        )
    } else {
        whole * (LAMPORTS_PER_SOL as nat)
    }
}

/// A digit is written as a digit and read back as itself.
pub proof fn lemma_digit(d: nat)
    requires
        d < 10,
    ensures
        is_digit(digit_char(d)),
        digit_value(digit_char(d)) == d,
{
}

/// The decimal digits of a number are digits, begin with a zero only for
/// zero itself, and stand for the number.
pub proof fn lemma_decimal_text(n: nat)
    ensures
        decimal_text(n).len() >= 1,
        forall|i: int| 0 <= i < decimal_text(n).len() ==> is_digit(#[trigger] decimal_text(n)[i]),
        decimal_text(n)[0] == '0' <==> n == 0,
        number_of(decimal_text(n)) == n,
    decreases n,
{
    let text = decimal_text(n);
    if n < 10 {
        lemma_digit(n);
        assert(text.drop_last() =~= Seq::<char>::empty());
        assert(number_of(text.drop_last()) == 0);
    } else {
        lemma_decimal_text(n / 10);
        lemma_digit(n % 10);
        assert(text.drop_last() =~= decimal_text(n / 10));
        assert(text.last() == digit_char(n % 10));
        assert(text[0] == decimal_text(n / 10)[0]);
    }
}

/// The digits of a fraction are digits, are no more than the scale allows,
/// do not end in a zero, and stand for the fraction.
pub proof fn lemma_fraction_text(part: nat, scale: nat)
    requires
        part < scale,
        power_of_ten(scale),
    ensures
        forall|i: int|
            0 <= i < fraction_text(part, scale).len() ==> is_digit(
                #[trigger] fraction_text(part, scale)[i],
            ),
        fraction_text(part, scale).len() == 0 <==> part == 0,
        part != 0 ==> fraction_text(part, scale).last() != '0',
        ten_power(fraction_text(part, scale).len()) <= scale,
        fraction_of(fraction_text(part, scale), scale) == part,
    decreases scale,
{
    let text = fraction_text(part, scale);
    if part == 0 || scale < 10 {
    } else {
        let step = scale / 10;
        let first = part / step;
        let rest = fraction_text(part % step, step);
        assert(scale == 10 * step);
        assert(first < 10 && part % step < step && part == first * step + part % step)
            by (nonlinear_arith)
            requires
                part < 10 * step,
                step > 0,
                first == part / step,
        ;
        lemma_digit(first);
        lemma_fraction_text(part % step, step);
        assert(text.drop_first() =~= rest);
        assert(text.first() == digit_char(first));
        assert forall|i: int| 0 <= i < text.len() implies is_digit(#[trigger] text[i]) by {
            if i > 0 {
                assert(text[i] == rest[i - 1]);
            }
        }
        if part % step == 0 {
            assert(first != 0);
            assert(text.last() == digit_char(first));
        } else {
            assert(text.last() == rest.last());
        }
    }
}

/// Text made of digits, followed by a point or by nothing, has its first
/// point right behind the digits.
pub proof fn lemma_point_behind_digits(digits: Seq<char>, behind: Seq<char>)
    requires
        forall|i: int| 0 <= i < digits.len() ==> is_digit(#[trigger] digits[i]),
        behind.len() == 0 || behind.first() == '.',
    ensures
        point_at(digits + behind) == digits.len(),
    decreases digits.len(),
{
    let text = digits + behind;
    if digits.len() == 0 {
        assert(text =~= behind);
    } else {
        assert(text.first() == digits[0]);
        assert(is_digit(digits[0]));
        assert(text.drop_first() =~= digits.drop_first() + behind);
        assert forall|i: int| 0 <= i < digits.drop_first().len() implies is_digit(
            #[trigger] digits.drop_first()[i],
        ) by {
            assert(digits.drop_first()[i] == digits[i + 1]);
        }
        lemma_point_behind_digits(digits.drop_first(), behind);
    }
}

/// The text of an amount is exact: read as a decimal number of SOL, it
/// stands for the amount, to the last lamport.
pub proof fn lemma_sol_text_is_exact(lamports: u64)
    ensures
        lamports_of(sol_text(lamports)) == lamports,
{
    let scale = LAMPORTS_PER_SOL as nat;
    let whole = (lamports / LAMPORTS_PER_SOL) as nat;
    let part = (lamports % LAMPORTS_PER_SOL) as nat;
    let digits = decimal_text(whole);
    let text = sol_text(lamports);
    lemma_decimal_text(whole);
    if part == 0 {
        lemma_point_behind_digits(digits, Seq::empty());
        assert(digits + Seq::<char>::empty() =~= digits);
        assert(text.take(digits.len() as int) =~= digits);
    } else {
        reveal_with_fuel(power_of_ten, 10);
        lemma_fraction_text(part, scale);
        let behind = seq!['.'] + fraction_text(part, scale);
        assert(text =~= digits + behind);
        lemma_point_behind_digits(digits, behind);
        assert(text.take(digits.len() as int) =~= digits);
        assert(text.skip(digits.len() as int + 1) =~= fraction_text(part, scale));
    }
}

/// No two amounts share a text.
pub proof fn lemma_sol_text_tells_amounts_apart(a: u64, b: u64)
    requires
        sol_text(a) == sol_text(b),
    ensures
        a == b,
{
    lemma_sol_text_is_exact(a);
    lemma_sol_text_is_exact(b);
}

/// The digit `d` as text.
pub fn digit(d: u64) -> (out: &'static str)
    requires
        d < 10,
    ensures
        out@ == seq![digit_char(d as nat)],
{
    proof {
        reveal_strlit("0");
        reveal_strlit("1");
        reveal_strlit("2");
        reveal_strlit("3");
        reveal_strlit("4");
        reveal_strlit("5");
        reveal_strlit("6");
        reveal_strlit("7");
        reveal_strlit("8");
        reveal_strlit("9");
    }
    let out: &'static str = if d == 0 {
        "0"
    } else if d == 1 {
        "1"
    } else if d == 2 {
        "2"
    } else if d == 3 {
        "3"
    } else if d == 4 {
        "4"
    } else if d == 5 {
        "5"
    } else if d == 6 {
        "6"
    } else if d == 7 {
        "7"
    } else if d == 8 {
        "8"
    } else {
        "9"
    };
    proof {
        assert(out@ =~= seq![digit_char(d as nat)]);
    }
    out
}

/// Writes `n` in decimal digits.
pub fn decimal(n: u64) -> (out: String)
    ensures
        out@ == decimal_text(n as nat),
    decreases n,
{
    if n < 10 {
        String::from_str(digit(n))
    } else {
        let mut out: String = decimal(n / 10);
        out.append(digit(n % 10));
        proof {
            assert(out@ =~= decimal_text(n as nat));
        }
        out
    }
}

/// Writes the digits of the fraction `part / scale` behind the point.
pub fn fraction(part: u64, scale: u64) -> (out: String)
    requires
        part < scale,
        power_of_ten(scale as nat),
    ensures
        out@ == fraction_text(part as nat, scale as nat),
    decreases scale,
{
    if part == 0 || scale < 10 {
        String::new()
    } else {
        let step: u64 = scale / 10;
        proof {
            assert(scale == 10 * step);
            assert(part / step < 10) by (nonlinear_arith)
                requires
                    part < 10 * step,
                    step > 0,
            ;
            assert(part % step < step) by (nonlinear_arith)
                requires
                    step > 0,
            ;
        }
        let mut out: String = String::from_str(digit(part / step));
        let rest: String = fraction(part % step, step);
        out.append(rest.as_str());
        out
    }
}

/// Writes an amount of lamports as a number of SOL.
pub fn sol_amount(lamports: u64) -> (out: String)
    ensures
        out@ == sol_text(lamports),
{
    let whole: u64 = lamports / LAMPORTS_PER_SOL;
    let part: u64 = lamports % LAMPORTS_PER_SOL;
    let mut out: String = decimal(whole);
    if part != 0 {
        proof {
            reveal_strlit(".");
            assert("."@ =~= seq!['.']);
        }
        out.append(".");
        proof {
            reveal_with_fuel(power_of_ten, 10);
        }
        let digits: String = fraction(part, LAMPORTS_PER_SOL);
        out.append(digits.as_str());
    }
    out
}

} // verus!
