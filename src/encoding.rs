//! Nine fields packed as the digits of a base-3 number, field 0 being the
//! least significant digit.
use vstd::prelude::*;
use vstd::arithmetic::div_mod::{
    lemma_div_denominator, lemma_fundamental_div_mod, lemma_fundamental_div_mod_converse,
    lemma_mod_breakdown, lemma_mod_mod, lemma_mod_pos_bound,
};
use vstd::arithmetic::mul::lemma_mul_is_associative;

use crate::field_state::FieldState;

verus! {

/// The number of distinct grids: `3^9`. Every packed value lies below it.
pub const GRID_COUNT: u16 = 19683;

/// `3^n`.
pub open spec fn pow3(n: nat) -> nat
    decreases n,
{
    if n == 0 {
        1
    } else {
        3 * pow3((n - 1) as nat)
    }
}

/// Digit `i` of `raw` written in base 3.
pub open spec fn digit_at(raw: nat, i: nat) -> nat {
    (raw / pow3(i)) % 3
}

/// The nine fields that the packed value `raw` encodes, field 0 first.
pub open spec fn cells_of(raw: nat) -> Seq<FieldState> {
    Seq::new(9, |i: int| FieldState::from_digit(digit_at(raw, i as nat)))
}

/// Every power of three is positive.
pub proof fn lemma_pow3_positive(n: nat)
    ensures
        pow3(n) > 0,
    decreases n,
{
    if n > 0 {
        lemma_pow3_positive((n - 1) as nat);
    }
}

/// `3^(a + b) == 3^a * 3^b`.
pub proof fn lemma_pow3_adds(a: nat, b: nat)
    ensures
        pow3(a + b) == pow3(a) * pow3(b),
    decreases a,
{
    if a > 0 {
        lemma_pow3_adds((a - 1) as nat, b);
        assert(((a - 1) as nat + b) as nat == (a + b - 1) as nat);
        assert(pow3(a + b) == 3 * pow3(((a - 1) as nat + b) as nat));
        assert(pow3(a) == 3 * pow3((a - 1) as nat));
        lemma_mul_is_associative(3, pow3((a - 1) as nat) as int, pow3(b) as int);
    } else {
        assert(pow3(a) == 1);
    }
}

/// `3^9` is the number of grids.
pub proof fn lemma_pow3_nine()
    ensures
        pow3(9) == GRID_COUNT,
{
    reveal_with_fuel(pow3, 10);
}

/// Digit `i + k` of `x` is digit `k` of `x` with its `i` lowest digits dropped.
pub proof fn lemma_digit_shift(x: nat, i: nat, k: nat)
    ensures
        digit_at(x, i + k) == digit_at(x / pow3(i), k),
{
    lemma_pow3_positive(i);
    lemma_pow3_positive(k);
    lemma_pow3_adds(i, k);
    lemma_div_denominator(x as int, pow3(i) as int, pow3(k) as int);
}

/// Two numbers that agree modulo `3^m` agree on their `m` lowest digits.
pub proof fn lemma_digit_low(x: nat, y: nat, j: nat, m: nat)
    requires
        j < m,
        x % pow3(m) == y % pow3(m),
    ensures
        digit_at(x, j) == digit_at(y, j),
{
    let p = pow3(j) as int;
    let k = pow3((m - j - 1) as nat) as int;
    lemma_pow3_positive(j);
    lemma_pow3_positive((m - j - 1) as nat);
    lemma_pow3_adds(j + 1, (m - j - 1) as nat);
    assert(pow3(m) == (p * 3) * k);
    lemma_mod_mod(x as int, p * 3, k);
    lemma_mod_mod(y as int, p * 3, k);
    lemma_mod_mod(x as int, p, 3);
    lemma_mod_mod(y as int, p, 3);
    lemma_mod_breakdown(x as int, p, 3);
    lemma_mod_breakdown(y as int, p, 3);
    let dx = (x as int / p) % 3;
    let dy = (y as int / p) % 3;
    assert(p * dx == p * dy);
    assert(dx == dy) by (nonlinear_arith)
        requires
            p > 0,
            p * dx == p * dy,
    ;
}

/// Numbers below `3^n` with the same `n` lowest digits are equal.
pub proof fn lemma_digits_determine(a: nat, b: nat, n: nat)
    requires
        a < pow3(n),
        b < pow3(n),
        forall|j: nat| j < n ==> digit_at(a, j) == digit_at(b, j),
    ensures
        a == b,
    decreases n,
{
    if n > 0 {
        let m = (n - 1) as nat;
        assert(pow3(0) == 1);
        assert(digit_at(a, 0) == digit_at(b, 0));
        assert(a % 3 == b % 3);
        assert(a / 3 < pow3(m));
        assert(b / 3 < pow3(m));
        assert forall|j: nat| j < m implies #[trigger] digit_at(a / 3, j) == digit_at(b / 3, j) by {
            lemma_digit_shift(a, 1, j);
            lemma_digit_shift(b, 1, j);
            assert(digit_at(a, 1 + j) == digit_at(b, 1 + j));
        }
        lemma_digits_determine(a / 3, b / 3, m);
        assert(a == 3 * (a / 3) + a % 3);
        assert(b == 3 * (b / 3) + b % 3);
    }
}

/// Writing `v` into digit `i` of `g` as `g % 3^i + 3^i * v + (g / 3^(i+1)) * 3^(i+1)`
/// changes that digit to `v`, keeps every other digit and stays below `3^9`.
pub proof fn lemma_replace_digit(g: nat, i: nat, v: nat)
    requires
        g < pow3(9),
        i < 9,
        v < 3,
    ensures
        ({
            let d = pow3(i);
            let n = g % d + d * v + (g / (d * 3)) * (d * 3);
            &&& n < pow3(9)
            &&& digit_at(n, i) == v
            &&& forall|j: nat| j != i ==> digit_at(n, j) == digit_at(g, j)
        }),
{
    let gi = g as int;
    let d = pow3(i) as int;
    lemma_pow3_positive(i);
    let lower = gi % d;
    let upper = gi / (d * 3);
    let n = lower + d * v + upper * (d * 3);
    lemma_mod_pos_bound(gi, d);
    lemma_div_denominator(gi, d, 3);
    // g and n both read as `lower` below digit i, and differ above it only in digit i.
    lemma_fundamental_div_mod(gi, d);
    lemma_fundamental_div_mod(gi / d, 3);
    assert(n == (v + 3 * upper) * d + lower) by (nonlinear_arith)
        requires
            n == lower + d * v + upper * (d * 3),
    ;
    lemma_fundamental_div_mod_converse(n, d, v + 3 * upper, lower);
    lemma_fundamental_div_mod_converse(v + 3 * upper, 3, upper, v as int);
    assert(digit_at(n as nat, i) == v);
    // the bound
    let top = pow3((8 - i) as nat) as int;
    lemma_pow3_adds(i + 1, (8 - i) as nat);
    assert(pow3(9) == (d * 3) * top);
    lemma_fundamental_div_mod(gi, d * 3);
    lemma_mod_pos_bound(gi, d * 3);
    assert(upper < top) by (nonlinear_arith)
        requires
            gi < (d * 3) * top,
            gi == (d * 3) * upper + gi % (d * 3),
            gi % (d * 3) >= 0,
            d > 0,
    ;
    assert(n < pow3(9)) by (nonlinear_arith)
        requires
            n == lower + d * v + upper * (d * 3),
            0 <= lower < d,
            v < 3,
            upper < top,
            pow3(9) == (d * 3) * top,
    ;
    // digits above i
    lemma_div_denominator(n, d, 3);
    assert(n / (d * 3) == upper);
    assert forall|j: nat| j > i implies digit_at(n as nat, j) == digit_at(g, j) by {
        let k = (j - i - 1) as nat;
        lemma_digit_shift(n as nat, i + 1, k);
        lemma_digit_shift(g, i + 1, k);
        assert(i + 1 + k == j);
    }
    // digits below i
    assert forall|j: nat| j < i implies digit_at(n as nat, j) == digit_at(g, j) by {
        lemma_digit_low(n as nat, g, j, i);
    }
}

/// The first nine powers of three are at most `3^8`.
pub proof fn lemma_pow3_small(k: nat)
    requires
        k <= 8,
    ensures
        1 <= pow3(k) <= 6561,
{
    reveal_with_fuel(pow3, 9);
    lemma_pow3_positive((8 - k) as nat);
    lemma_pow3_adds(k, (8 - k) as nat);
    assert(pow3(k) * 1 <= pow3(k) * pow3((8 - k) as nat)) by (nonlinear_arith)
        requires
            pow3((8 - k) as nat) >= 1,
    ;
    lemma_pow3_positive(k);
}

/// `3^exp`, for an exponent below 9.
pub fn power_of_three(exp: u8) -> (r: u16)
    requires
        exp < 9,
    ensures
        r as nat == pow3(exp as nat),
        1 <= r <= 6561,
{
    let mut r: u16 = 1;
    let mut k: u8 = 0;
    while k < exp
        invariant
            k <= exp < 9,
            r as nat == pow3(k as nat),
        decreases exp - k,
    {
        proof {
            lemma_pow3_small(k as nat);
        }
        r = r * 3;
        k = k + 1;
    }
    proof {
        lemma_pow3_small(k as nat);
    }
    r
}

} // verus!
