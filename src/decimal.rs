//! Fixed-point decimal arithmetic on microsecond counts: rounding to a number of
//! decimal places of a second, and rendering as text.

use vstd::arithmetic::div_mod::lemma_fundamental_div_mod_converse;
use vstd::prelude::*;

verus! {

/// Microseconds in one second.
pub const MICROS_PER_SECOND: u64 = 1_000_000;

/// The largest number of decimal places of a second that the library renders.
pub const MAX_DECIMALS: usize = 6;

/// Relies on `String::push`: appends one character.
pub assume_specification[ String::push ](s: &mut String, c: char)
    ensures
        final(s)@ == old(s)@.push(c),
;

/// Ten to the power `n`.
pub open spec fn pow10(n: nat) -> nat
    decreases n,
{
    if n == 0 {
        1
    } else {
        10 * pow10((n - 1) as nat)
    }
}

/// The number of microseconds in one step of `decimals` decimal places.
pub open spec fn step_of(decimals: nat) -> nat {
    pow10((MAX_DECIMALS - decimals) as nat)
}

/// `n / m` rounded to the nearest integer, halves rounding up.
pub open spec fn div_round(n: nat, m: nat) -> nat
    recommends
        m > 0,
{
    ((2 * n + m) / (2 * m)) as nat
}

/// A microsecond count rounded to `decimals` decimal places of a second, halves
/// away from zero; the result is still counted in microseconds.
pub open spec fn round_micros(micros: nat, decimals: nat) -> nat {
    div_round(micros, step_of(decimals)) * step_of(decimals)
}

pub proof fn lemma_pow10_positive(n: nat)
    ensures
        pow10(n) >= 1,
    decreases n,
{
    if n > 0 {
        lemma_pow10_positive((n - 1) as nat);
    }
}

pub proof fn lemma_step_bounds(decimals: nat)
    requires
        decimals <= MAX_DECIMALS,
    ensures
        1 <= step_of(decimals) <= MICROS_PER_SECOND,
{
    reveal_with_fuel(pow10, 7);
}

/// `10^n` for `n` up to six, as a machine integer.
pub fn pow10_u64(n: usize) -> (r: u64)
    requires
        n <= MAX_DECIMALS,
    ensures
        r == pow10(n as nat),
{
    reveal_with_fuel(pow10, 7);
    match n {
        0 => 1,
        1 => 10,
        2 => 100,
        3 => 1_000,
        4 => 10_000,
        5 => 100_000,
        _ => 1_000_000,
    }
}

/// The number of microseconds in one step of `decimals` decimal places.
pub fn step_u64(decimals: usize) -> (r: u64)
    requires
        decimals <= MAX_DECIMALS,
    ensures
        r == step_of(decimals as nat),
        1 <= r <= MICROS_PER_SECOND,
{
    proof {
        lemma_step_bounds(decimals as nat);
    }
    pow10_u64(MAX_DECIMALS - decimals)
}

/// `n / m` rounded to the nearest integer, halves rounding up, computed without
/// forming `2 * n`.
pub fn div_round_u128(n: u128, m: u128) -> (r: u128)
    requires
        m > 0,
    ensures
        r == div_round(n as nat, m as nat),
        r <= n / m + 1,
{
    let q = n / m;
    let rem = n % m;
    proof {
        assert(n == q * m + rem) by (nonlinear_arith)
            requires
                q == n / m,
                rem == n % m,
                m > 0,
        ;
    }
    if rem >= m - rem {
        proof {
            assert(2 * n + m == (q + 1) * (2 * m) + (2 * rem - m)) by (nonlinear_arith)
                requires
                    n == q * m + rem,
            ;
            lemma_fundamental_div_mod_converse(2 * n + m, 2 * m, q + 1, 2 * rem - m);
            assert(q < u128::MAX) by (nonlinear_arith)
                requires
                    n == q * m + rem,
                    rem >= 1,
                    m >= 2,
                    n <= u128::MAX,
            ;
        }
        q + 1
    } else {
        proof {
            assert(2 * n + m == q * (2 * m) + (2 * rem + m)) by (nonlinear_arith)
                requires
                    n == q * m + rem,
            ;
            lemma_fundamental_div_mod_converse(2 * n + m, 2 * m, q as int, 2 * rem + m);
        }
        q
    }
}

/// Rounds a duration in microseconds to `decimals` decimal places of a second.
pub fn round(micros: u64, decimals: usize) -> (r: u128)
    requires
        decimals <= MAX_DECIMALS,
    ensures
        r == round_micros(micros as nat, decimals as nat),
{
    let step = step_u64(decimals) as u128;
    let units = div_round_u128(micros as u128, step);
    proof {
        assert(units * step <= micros + step) by (nonlinear_arith)
            requires
                units <= micros as int / step as int + 1,
                step >= 1,
        ;
    }
    units * step
}

/// Rounding a value that is already rounded leaves it unchanged.
pub proof fn lemma_round_idempotent(micros: nat, decimals: nat)
    requires
        decimals <= MAX_DECIMALS,
    ensures
        round_micros(round_micros(micros, decimals), decimals) == round_micros(micros, decimals),
{
    lemma_step_bounds(decimals);
    let q = step_of(decimals) as int;
    let u = div_round(micros, step_of(decimals)) as int;
    assert(2 * (u * q) + q == u * (2 * q) + q) by (nonlinear_arith);
    lemma_fundamental_div_mod_converse(2 * (u * q) + q, 2 * q, u, q);
}

/// The decimal digit character for `d < 10`.
pub open spec fn digit_char(d: nat) -> char {
    if d == 0 {
        '0'
    } else if d == 1 {
        '1'
    } else if d == 2 {
        '2'
    } else if d == 3 {
        '3'
    } else if d == 4 {
        '4'
    } else if d == 5 {
        '5'
    } else if d == 6 {
        '6'
    } else if d == 7 {
        '7'
    } else if d == 8 {
        '8'
    } else {
        '9'
    }
}

/// The decimal representation of `n`, without leading zeros.
pub open spec fn digits(n: nat) -> Seq<char>
    decreases n,
{
    if n < 10 {
        seq![digit_char(n)]
    } else {
        digits(n / 10).push(digit_char(n % 10))
    }
}

/// The first `k` of the six digits of a fraction of a second `f`, given in
/// microseconds and padded with leading zeros to six digits.
pub open spec fn frac_digits(f: nat, k: nat) -> Seq<char>
    recommends
        k <= MAX_DECIMALS,
    decreases k,
{
    if k == 0 {
        Seq::empty()
    } else {
        frac_digits(f, (k - 1) as nat).push(digit_char((f / pow10((MAX_DECIMALS - k) as nat)) % 10))
    }
}

/// The fewest leading digits, at least `k`, that render the fraction `f` exactly.
pub open spec fn significant_from(f: nat, k: nat) -> nat
    decreases MAX_DECIMALS - k,
{
    if k >= MAX_DECIMALS || f % pow10((MAX_DECIMALS - k) as nat) == 0 {
        k
    } else {
        significant_from(f, k + 1)
    }
}

/// A duration in microseconds as seconds, with every fractional digit that is
/// needed and no trailing zeros: `11150000` is `11.15`, `12000000` is `12`.
pub open spec fn seconds_text(micros: nat) -> Seq<char> {
    let whole = micros / MICROS_PER_SECOND as nat;
    let frac = micros % MICROS_PER_SECOND as nat;
    if frac == 0 {
        digits(whole)
    } else {
        digits(whole).push('.') + frac_digits(frac, significant_from(frac, 0))
    }
}

/// A duration in microseconds as seconds with exactly `decimals` fractional
/// digits, the rest cut off: with two places `0` is `0.00`.
pub open spec fn padded_text(micros: nat, decimals: nat) -> Seq<char> {
    let whole = micros / MICROS_PER_SECOND as nat;
    let frac = micros % MICROS_PER_SECOND as nat;
    if decimals == 0 {
        digits(whole)
    } else {
        digits(whole).push('.') + frac_digits(frac, decimals)
    }
}

fn digit(d: u128) -> (c: char)
    requires
        d < 10,
    ensures
        c == digit_char(d as nat),
{
    if d == 0 {
        '0'
    } else if d == 1 {
        '1'
    } else if d == 2 {
        '2'
    } else if d == 3 {
        '3'
    } else if d == 4 {
        '4'
    } else if d == 5 {
        '5'
    } else if d == 6 {
        '6'
    } else if d == 7 {
        '7'
    } else if d == 8 {
        '8'
    } else {
        '9'
    }
}

/// Appends the decimal representation of `n`.
pub fn push_digits(s: &mut String, n: u128)
    ensures
        final(s)@ == old(s)@ + digits(n as nat),
    decreases n,
{
    if n >= 10 {
        push_digits(s, n / 10);
    }
    s.push(digit(n % 10));
    proof {
        if n >= 10 {
            assert(final(s)@ =~= old(s)@ + digits(n as nat));
        } else {
            assert(final(s)@ =~= old(s)@ + digits(n as nat));
        }
    }
}

/// Appends the first `k` digits of the six-digit fraction `f`.
fn push_frac_digits(s: &mut String, f: u64, k: usize)
    requires
        f < MICROS_PER_SECOND,
        k <= MAX_DECIMALS,
    ensures
        final(s)@ == old(s)@ + frac_digits(f as nat, k as nat),
{
    let ghost start = s@;
    let mut i: usize = 0;
    while i < k
        invariant
            i <= k <= MAX_DECIMALS,
            f < MICROS_PER_SECOND,
            s@ == start + frac_digits(f as nat, i as nat),
        decreases k - i,
    {
        let p = pow10_u64(MAX_DECIMALS - (i + 1));
        proof {
            lemma_pow10_positive((MAX_DECIMALS - (i + 1)) as nat);
        }
        s.push(digit(((f / p) % 10) as u128));
        i = i + 1;
        assert(s@ =~= start + frac_digits(f as nat, i as nat));
    }
}

/// The fewest digits that render the fraction `f` exactly.
fn significant_digits(f: u64) -> (k: usize)
    requires
        f < MICROS_PER_SECOND,
    ensures
        k == significant_from(f as nat, 0),
        k <= MAX_DECIMALS,
{
    let mut k: usize = 0;
    while k < MAX_DECIMALS
        invariant
            k <= MAX_DECIMALS,
            significant_from(f as nat, k as nat) == significant_from(f as nat, 0),
        decreases MAX_DECIMALS - k,
    {
        let p = pow10_u64(MAX_DECIMALS - k);
        proof {
            lemma_pow10_positive((MAX_DECIMALS - k) as nat);
        }
        if f % p == 0 {
            return k;
        }
        k = k + 1;
    }
    k
}

/// Renders a duration in microseconds as seconds with no trailing zeros.
pub fn seconds_string(micros: u128) -> (r: String)
    ensures
        r@ == seconds_text(micros as nat),
{
    let mut s = String::new();
    push_digits(&mut s, micros / MICROS_PER_SECOND as u128);
    let frac = (micros % MICROS_PER_SECOND as u128) as u64;
    if frac != 0 {
        s.push('.');
        let k = significant_digits(frac);
        push_frac_digits(&mut s, frac, k);
    }
    assert(s@ =~= seconds_text(micros as nat));
    s
}

/// Renders a duration in microseconds as seconds with exactly `decimals`
/// fractional digits.
pub fn padded_seconds_string(micros: u128, decimals: usize) -> (r: String)
    requires
        decimals <= MAX_DECIMALS,
    ensures
        r@ == padded_text(micros as nat, decimals as nat),
{
    let mut s = String::new();
    push_digits(&mut s, micros / MICROS_PER_SECOND as u128);
    if decimals > 0 {
        s.push('.');
        push_frac_digits(&mut s, (micros % MICROS_PER_SECOND as u128) as u64, decimals);
    }
    assert(s@ =~= padded_text(micros as nat, decimals as nat));
    s
}

} // verus!
