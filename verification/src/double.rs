//! Exact integer form of the double-precision arithmetic used for damage caps.
//!
//! Quantities are non-negative whole numbers of units, one unit being 2^-61. That
//! is the weight of the last bit of the two tuning constants involved, and finer
//! than the last bit of every other quantity. An arithmetic operation on doubles
//! is its exact result rounded to 53 significant bits, ties to even.

use vstd::arithmetic::div_mod::{
    lemma_div_denominator, lemma_div_multiples_vanish_quotient, lemma_fundamental_div_mod,
    lemma_fundamental_div_mod_converse,
};
use vstd::arithmetic::power2::{lemma2_to64, lemma_pow2_unfold, pow2};
use vstd::prelude::*;

verus! {

/// Two to the 53rd: the first integer that needs more than 53 bits.
pub const PRECISION_LIMIT: u128 = 0x20_0000_0000_0000;

/// Two to the 61st: the number of units in one.
pub const ONE: u128 = 0x2000_0000_0000_0000;

/// Two to the 127th.
pub const HALF_RANGE: u128 = 0x8000_0000_0000_0000_0000_0000_0000_0000;

/// The weight of the last of the 53 leading bits of `q` (one where `q` has no
/// more than 53 bits).
pub open spec fn last_place(q: nat) -> nat
    decreases q,
{
    if q < PRECISION_LIMIT {
        1
    } else {
        2 * last_place(q / 2)
    }
}

/// `n / d` rounded to the nearest whole number, ties to even.
pub open spec fn round_half_even(n: nat, d: nat) -> nat {
    let q = n / d;
    let r = n % d;
    if 2 * r < d {
        q
    } else if 2 * r > d {
        q + 1
    } else {
        q + q % 2
    }
}

/// `n / d` rounded to 53 significant bits, ties to even, for quotients of at least
/// 53 bits; smaller quotients are rounded to a whole number.
pub open spec fn nearest(n: nat, d: nat) -> nat {
    let place = last_place(n / d);
    round_half_even(n, d * place) * place
}

/// `v / one` rounded to the nearest whole number, ties upwards.
pub open spec fn round_half_up(v: nat, one: nat) -> nat {
    (2 * v + one) / (2 * one)
}

/// The weight of the last kept bit never exceeds the value by more than the
/// precision allows.
proof fn lemma_last_place_bound(q: nat)
    ensures
        last_place(q) >= 1,
        last_place(q) > 1 ==> last_place(q) * 0x10_0000_0000_0000 <= q,
    decreases q,
{
    if q >= PRECISION_LIMIT {
        lemma_last_place_bound(q / 2);
    }
}

/// What the rounded quotient is at most.
proof fn lemma_nearest_bound(n: nat, d: nat)
    requires
        d > 0,
    ensures
        nearest(n, d) <= 2 * n + 1,
        d * last_place(n / d) <= n || last_place(n / d) == 1,
        last_place(n / d) <= n || last_place(n / d) == 1,
{
    let q = n / d;
    let place = last_place(q);
    lemma_last_place_bound(q);
    lemma_fundamental_div_mod(n as int, d as int);
    assert(d * q <= n);
    if place > 1 {
        assert(place <= q);
        assert(d * place <= d * q) by (nonlinear_arith)
            requires
                place <= q,
        ;
        assert(place <= d * place) by (nonlinear_arith)
            requires
                d >= 1,
        ;
    }
    let dp = d * place;
    assert(dp >= place && dp > 0) by (nonlinear_arith)
        requires
            dp == d * place,
            d >= 1,
            place >= 1,
    ;
    let t = n / dp;
    lemma_fundamental_div_mod(n as int, dp as int);
    assert(t * place <= dp * t) by (nonlinear_arith)
        requires
            place <= dp,
    ;
    assert(t * place <= n);
    assert((t + 1) * place == t * place + place) by (nonlinear_arith);
    let whole = round_half_even(n, dp);
    assert(whole == t || whole == t + 1);
}

/// The rounded quotient is within a factor of two of the quotient.
pub proof fn lemma_nearest_close(n: nat, d: nat)
    requires
        d > 0,
    ensures
        nearest(n, d) <= 2 * (n / d) + 1,
        n / d <= 2 * nearest(n, d),
{
    let q = n / d;
    let place = last_place(q);
    lemma_last_place_bound(q);
    let dp = d * place;
    assert(dp > 0) by (nonlinear_arith)
        requires
            dp == d * place,
            d >= 1,
            place >= 1,
    ;
    lemma_div_denominator(n as int, d as int, place as int);
    let t = n / dp;
    assert(t == q / place);
    lemma_fundamental_div_mod(q as int, place as int);
    assert(t * place == place * t) by (nonlinear_arith);
    assert((t + 1) * place == t * place + place) by (nonlinear_arith);
    let whole = round_half_even(n, dp);
    if place == 1 {
        assert(whole * place == whole);
    }
    assert(whole == t || whole == t + 1);
}

/// Rounding does not see a common factor of two.
proof fn lemma_round_half_even_doubled(n: nat, d: nat)
    requires
        d > 0,
    ensures
        round_half_even(2 * n, 2 * d) == round_half_even(n, d),
{
    let q = n / d;
    let r = n % d;
    lemma_fundamental_div_mod(n as int, d as int);
    assert(2 * n == (2 * d) * q + 2 * r) by (nonlinear_arith)
        requires
            n == d * q + r,
    ;
    assert(q * (2 * d) == (2 * d) * q) by (nonlinear_arith);
    lemma_fundamental_div_mod_converse((2 * n) as int, (2 * d) as int, q as int, (2 * r) as int);
}

/// Once the quotient has 53 bits, rounding commutes with doubling.
proof fn lemma_nearest_doubled(n: nat, d: nat)
    requires
        d > 0,
        n / d >= 0x10_0000_0000_0000,
    ensures
        nearest(2 * n, d) == 2 * nearest(n, d),
        (2 * n) / d >= 0x20_0000_0000_0000,
{
    let q = n / d;
    let q2 = (2 * n) / d;
    lemma_fundamental_div_mod(n as int, d as int);
    lemma_fundamental_div_mod((2 * n) as int, d as int);
    let r = n % d;
    assert(2 * n == d * (2 * q) + 2 * r) by (nonlinear_arith)
        requires
            n == d * q + r,
    ;
    assert(q2 >= 2 * q) by (nonlinear_arith)
        requires
            d * (2 * q) <= 2 * n,
            2 * n < d * q2 + d,
            d > 0,
    ;
    lemma_div_denominator((2 * n) as int, d as int, 2);
    lemma_div_denominator((2 * n) as int, 2, d as int);
    assert(q2 / 2 == q) by {
        assert((2 * n) / 2 == n);
        assert(d * 2 == 2 * d);
    }
    let place = last_place(q);
    assert(last_place(q2) == 2 * place);
    lemma_last_place_bound(q);
    assert(d * place > 0) by (nonlinear_arith)
        requires
            d >= 1,
            place >= 1,
    ;
    lemma_round_half_even_doubled(n, d * place);
    assert(d * (2 * place) == 2 * (d * place)) by (nonlinear_arith);
    let whole = round_half_even(n, d * place);
    assert(whole * (2 * place) == 2 * (whole * place)) by (nonlinear_arith);
}

/// Once the quotient has 53 bits, rounding commutes with scaling by powers of two.
pub proof fn lemma_nearest_scaled(n: nat, d: nat, s: nat)
    requires
        d > 0,
        n / d >= 0x10_0000_0000_0000,
    ensures
        nearest(n * pow2(s), d) == nearest(n, d) * pow2(s),
        (n * pow2(s)) / d >= 0x10_0000_0000_0000,
    decreases s,
{
    if s == 0 {
        lemma2_to64();
    } else {
        let t = (s - 1) as nat;
        lemma_nearest_scaled(n, d, t);
        lemma_pow2_unfold(s);
        let p = pow2(t);
        let r = nearest(n, d);
        assert(n * (2 * p) == 2 * (n * p)) by (nonlinear_arith);
        assert(r * (2 * p) == 2 * (r * p)) by (nonlinear_arith);
        lemma_nearest_doubled(n * p, d);
    }
}

/// Rounding to a whole number does not depend on the unit.
pub proof fn lemma_half_up_scaled(v: nat, one: nat, m: nat)
    requires
        one > 0,
        m > 0,
    ensures
        round_half_up(v * m, one * m) == round_half_up(v, one),
{
    lemma_div_multiples_vanish_quotient(m as int, (2 * v + one) as int, (2 * one) as int);
    assert(m * (2 * v + one) == 2 * (v * m) + one * m) by (nonlinear_arith);
    assert(m * (2 * one) == 2 * (one * m)) by (nonlinear_arith);
}

/// The rounded quotient of numbers in a fixed ratio is one and the same.
pub proof fn lemma_nearest_same_ratio(n: nat, d: nat, n2: nat, d2: nat)
    requires
        d > 0,
        d2 > 0,
        n * d2 == n2 * d,
    ensures
        nearest(n, d) == nearest(n2, d2),
{
    let q = n / d;
    lemma_fundamental_div_mod(n as int, d as int);
    lemma_quotient_same_ratio(n, d, n2, d2);
    let place = last_place(q);
    lemma_last_place_bound(q);
    assert(n * (d2 * place) == n2 * (d * place)) by (nonlinear_arith)
        requires
            n * d2 == n2 * d,
    ;
    assert(d * place > 0 && d2 * place > 0) by (nonlinear_arith)
        requires
            d > 0,
            d2 > 0,
            place >= 1,
    ;
    let a = d * place;
    let b = d2 * place;
    lemma_quotient_same_ratio(n, a, n2, b);
    let r = n % a;
    let r2 = n2 % b;
    assert(2 * r < a <==> 2 * r2 < b) by (nonlinear_arith)
        requires
            a > 0,
            b > 0,
            r * b == r2 * a,
    ;
    assert(2 * r > a <==> 2 * r2 > b) by (nonlinear_arith)
        requires
            a > 0,
            b > 0,
            r * b == r2 * a,
    ;
}

proof fn lemma_quotient_same_ratio(n: nat, d: nat, n2: nat, d2: nat)
    requires
        d > 0,
        d2 > 0,
        n * d2 == n2 * d,
    ensures
        n / d == n2 / d2,
        (n % d) * d2 == (n2 % d2) * d,
{
    let q = n / d;
    let r = n % d;
    lemma_fundamental_div_mod(n as int, d as int);
    let r2 = n2 - d2 * q;
    assert(d * r2 == r * d2) by (nonlinear_arith)
        requires
            r2 == n2 - d2 * q,
            n == d * q + r,
            n * d2 == n2 * d,
    ;
    assert(0 <= r2 < d2) by (nonlinear_arith)
        requires
            d * r2 == r * d2,
            0 <= r < d,
            d > 0,
            d2 > 0,
    ;
    assert(n2 == q * d2 + r2) by (nonlinear_arith)
        requires
            r2 == n2 - d2 * q,
    ;
    lemma_fundamental_div_mod_converse(n2 as int, d2 as int, q as int, r2);
    assert(r * d2 == r2 * d) by (nonlinear_arith)
        requires
            d * r2 == r * d2,
    ;
}

/// A quotient of at least 53 bits is rounded by no more than one part in 2^53.
pub proof fn lemma_nearest_error(n: nat, d: nat)
    requires
        d > 0,
        n >= d * 0x10_0000_0000_0000,
    ensures
        (nearest(n, d) * d - n) * 0x20_0000_0000_0000 <= n,
        (n - nearest(n, d) * d) * 0x20_0000_0000_0000 <= n,
{
    let q = n / d;
    lemma_fundamental_div_mod(n as int, d as int);
    assert(q >= 0x10_0000_0000_0000) by (nonlinear_arith)
        requires
            n == d * q + n % d,
            n % d < d,
            n >= d * 0x10_0000_0000_0000,
            d > 0,
    ;
    let place = last_place(q);
    lemma_last_place_bound(q);
    assert(place * 0x10_0000_0000_0000 <= q);
    let dp = d * place;
    assert(dp > 0) by (nonlinear_arith)
        requires
            dp == d * place,
            d > 0,
            place >= 1,
    ;
    let t = n / dp;
    let r = n % dp;
    lemma_fundamental_div_mod(n as int, dp as int);
    let whole = round_half_even(n, dp);
    assert(whole == t || whole == t + 1);
    assert(2 * (whole * dp - n) <= dp && 2 * (n - whole * dp) <= dp) by (nonlinear_arith)
        requires
            n == dp * t + r,
            0 <= r < dp,
            whole == t && 2 * r <= dp || whole == t + 1 && 2 * r >= dp,
    ;
    assert(nearest(n, d) * d == whole * dp) by (nonlinear_arith)
        requires
            nearest(n, d) == whole * place,
            dp == d * place,
    ;
    assert(dp * 0x10_0000_0000_0000 <= n) by (nonlinear_arith)
        requires
            dp == d * place,
            place * 0x10_0000_0000_0000 <= q,
            n >= d * q,
            d > 0,
    ;
}

/// `n / d` rounded to 53 significant bits.
pub fn divide(n: u128, d: u128) -> (rounded: u128)
    requires
        d > 0,
        n < HALF_RANGE,
    ensures
        rounded == nearest(n as nat, d as nat),
{
    let exact: u128 = n / d;
    let mut head: u128 = exact;
    let mut place: u128 = 1;
    proof {
        lemma_fundamental_div_mod(n as int, d as int);
        assert(exact <= n) by (nonlinear_arith)
            requires
                n == d * exact + n % d,
                n % d >= 0,
                d >= 1,
                exact >= 0,
        ;
    }
    while head >= PRECISION_LIMIT
        invariant
            head * place <= exact,
            exact <= n,
            n < HALF_RANGE,
            place >= 1,
            last_place(exact as nat) == place * last_place(head as nat),
        decreases head,
    {
        assert((head / 2) * (2 * place) <= head * place) by (nonlinear_arith)
            requires
                head >= 0,
                place >= 1,
        ;
        assert(2 * place <= head * place) by (nonlinear_arith)
            requires
                head >= 2,
                place >= 1,
        ;
        assert(place * (2 * last_place((head / 2) as nat)) == (2 * place) * last_place(
            (head / 2) as nat,
        )) by (nonlinear_arith);
        head = head / 2;
        place = place * 2;
    }
    proof {
        lemma_nearest_bound(n as nat, d as nat);
        assert(last_place(head as nat) == 1);
        assert(place * 1 == place);
        assert(place == last_place(exact as nat));
        assert(d * 1 == d);
    }
    let divisor: u128 = d * place;
    assert(divisor > 0) by (nonlinear_arith)
        requires
            divisor == d * place,
            d >= 1,
            place >= 1,
    ;
    let whole: u128 = n / divisor;
    let rest: u128 = n % divisor;
    proof {
        lemma_fundamental_div_mod(n as int, divisor as int);
        assert(whole <= n) by (nonlinear_arith)
            requires
                n == divisor * whole + rest,
                rest >= 0,
                divisor >= 1,
                whole >= 0,
        ;
    }
    let rounded: u128 = if rest < divisor - rest {
        whole
    } else if rest > divisor - rest {
        whole + 1
    } else {
        whole + whole % 2
    };
    assert(rounded == round_half_even(n as nat, divisor as nat));
    rounded * place
}

/// `n` rounded to 53 significant bits.
pub fn round(n: u128) -> (rounded: u128)
    requires
        n < HALF_RANGE,
    ensures
        rounded == nearest(n as nat, 1),
{
    divide(n, 1)
}

} // verus!
