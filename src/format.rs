//! Decimal rendering of integers and of exact ratios.
use vstd::prelude::*;

verus! {

/// The character of a decimal digit.
pub open spec fn digit_char(d: int) -> char {
    if d == 0 {
        '0'
    } else if d == 1 {
        '1'
    } else if d == 2 {
        '2'
    } else if d == 3 {
        '3'
    } else if d == 4 {
        '4'
    } else if d == 5 {
        '5'
    } else if d == 6 {
        '6'
    } else if d == 7 {
        '7'
    } else if d == 8 {
        '8'
    } else {
        '9'
    }
}

/// Decimal notation of a natural number, without leading zeros.
pub open spec fn decimal(n: nat) -> Seq<char>
    decreases n,
{
    if n < 10 {
        seq![digit_char(n as int)]
    } else {
        decimal(n / 10).push(digit_char((n % 10) as int))
    }
}

/// `n / d` rounded to the nearest integer, ties going to the even one.
pub open spec fn round_div(n: nat, d: nat) -> nat
    recommends
        d > 0,
{
    let q = n / d;
    let r = n % d;
    if 2 * r > d {
        q + 1
    } else if 2 * r < d {
        q
    } else if q % 2 == 0 {
        q
    } else {
        q + 1
    }
}

/// The rounded quotient is within half a step of the exact one:
/// `|round_div(n, d) - n / d| <= 1 / 2`.
pub proof fn round_div_nearest(n: nat, d: nat)
    requires
        d > 0,
    ensures
        2 * round_div(n, d) * d <= 2 * n + d,
        2 * n <= 2 * round_div(n, d) * d + d,
{
    let q = n / d;
    let r = n % d;
    vstd::arithmetic::div_mod::lemma_fundamental_div_mod(n as int, d as int);
    assert(n == d * q + r);
    assert(r < d);
    if round_div(n, d) == q {
        assert(2 * r <= d);
        assert(2 * q * d <= 2 * n + d) by (nonlinear_arith)
            requires
                n == d * q + r,
        ;
        assert(2 * n <= 2 * q * d + d) by (nonlinear_arith)
            requires
                n == d * q + r,
                2 * r <= d,
        ;
    } else {
        assert(round_div(n, d) == q + 1);
        assert(2 * r >= d);
        assert(2 * (q + 1) * d <= 2 * n + d) by (nonlinear_arith)
            requires
                n == d * q + r,
                2 * r >= d,
        ;
        assert(2 * n <= 2 * (q + 1) * d + d) by (nonlinear_arith)
            requires
                n == d * q + r,
                r < d,
        ;
    }
}

/// Fixed-point notation with two decimals of `h / 100`.
pub open spec fn hundredths_text(h: nat) -> Seq<char> {
    decimal(h / 100) + seq!['.', digit_char(((h / 10) % 10) as int), digit_char((h % 10) as int)]
}

fn digit_str(d: u128) -> (r: &'static str)
    requires
        d < 10,
    ensures
        r@ == seq![digit_char(d as int)],
{
    proof {
        reveal_strlit("0");
        reveal_strlit("1");
        reveal_strlit("2");
        reveal_strlit("3");
        reveal_strlit("4");
        reveal_strlit("5");
        reveal_strlit("6");
        reveal_strlit("7");
        reveal_strlit("8");
        reveal_strlit("9");
    }
    let r = if d == 0 {
        "0"
    } else if d == 1 {
        "1"
    } else if d == 2 {
        "2"
    } else if d == 3 {
        "3"
    } else if d == 4 {
        "4"
    } else if d == 5 {
        "5"
    } else if d == 6 {
        "6"
    } else if d == 7 {
        "7"
    } else if d == 8 {
        "8"
    } else {
        "9"
    };
    assert(r@ =~= seq![digit_char(d as int)]);
    r
}

/// Appends the decimal notation of `n` to `out`.
pub fn push_decimal(out: &mut String, n: u128)
    ensures
        final(out)@ == old(out)@ + decimal(n as nat),
    decreases n,
{
    if n < 10 {
        out.append(digit_str(n));
    } else {
        push_decimal(out, n / 10);
        out.append(digit_str(n % 10));
        assert(decimal(n as nat) == decimal((n / 10) as nat).push(digit_char((n % 10) as int)));
        assert(final(out)@ =~= old(out)@ + decimal(n as nat));
    }
}

/// `n / d` rounded to the nearest integer, ties to even.
pub fn round_div_u128(n: u128, d: u128) -> (r: u128)
    requires
        d > 0,
    ensures
        r == round_div(n as nat, d as nat),
{
    let q = n / d;
    let rem = n % d;
    if rem > 0 {
        assert(q < n) by (nonlinear_arith)
            requires
                d > 0,
                q == n / d,
                rem == n % d,
                rem > 0,
        ;
    }
    if rem > d - rem {
        q + 1
    } else if rem < d - rem {
        q
    } else if q % 2 == 0 {
        q
    } else {
        q + 1
    }
}

/// Appends the two-decimal notation of `h / 100` to `out`.
pub fn push_hundredths(out: &mut String, h: u128)
    ensures
        final(out)@ == old(out)@ + hundredths_text(h as nat),
{
    push_decimal(out, h / 100);
    proof {
        reveal_strlit(".");
    }
    out.append(".");
    out.append(digit_str((h / 10) % 10));
    out.append(digit_str(h % 10));
    assert(final(out)@ =~= old(out)@ + hundredths_text(h as nat));
}

} // verus!
