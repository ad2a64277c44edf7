//! What a progress percentage promises.

use vstd::arithmetic::div_mod::{
    lemma_div_denominator, lemma_div_is_ordered, lemma_div_multiples_vanish,
    lemma_fundamental_div_mod, lemma_mod_multiples_basic,
};
use vstd::arithmetic::power2::{
    lemma2_to64, lemma2_to64_rest, lemma_pow2_pos, lemma_pow2_unfold, pow2,
};
use vstd::prelude::*;

use crate::file_transfer::progress::{
    half_even, percentage_of, round_single, scale, single_quotient, QUOTIENT_UNIT,
    SIGNIFICAND_LIMIT,
};

verus! {

/// `n / b` rounded to 24 significant bits.
spec fn rounded(n: nat, b: nat) -> nat {
    half_even(n, b * scale(n / b)) * scale(n / b)
}

/// A scale leaves 24 significant bits.
proof fn lemma_scale_range(x: nat)
    ensures
        scale(x) >= 1,
        x < SIGNIFICAND_LIMIT * scale(x),
        scale(x) > 1 ==> 8_388_608 * scale(x) <= x,
    decreases x,
{
    if x >= SIGNIFICAND_LIMIT {
        lemma_scale_range(x / 2);
    }
}

/// A larger number has the same scale, or at least twice the scale.
proof fn lemma_scale_order(x: nat, y: nat)
    requires
        x <= y,
    ensures
        scale(y) == scale(x) || scale(y) >= 2 * scale(x),
    decreases y,
{
    if y >= SIGNIFICAND_LIMIT {
        lemma_scale_range(y / 2);
        if x >= SIGNIFICAND_LIMIT {
            lemma_scale_order(x / 2, y / 2);
        }
    }
}

/// The scale of a number between two powers of two.
proof fn lemma_scale_is(x: nat, k: nat)
    requires
        8_388_608 * pow2(k) <= x < SIGNIFICAND_LIMIT * pow2(k),
    ensures
        scale(x) == pow2(k),
    decreases k,
{
    if k == 0 {
        lemma2_to64();
    } else {
        lemma_pow2_unfold(k);
        let half = pow2((k - 1) as nat);
        lemma_pow2_pos((k - 1) as nat);
        assert(8_388_608 * half <= x / 2 < SIGNIFICAND_LIMIT * half);
        lemma_scale_is(x / 2, (k - 1) as nat);
    }
}

/// Rounding to a whole number keeps the order.
proof fn lemma_half_even_order(m: nat, n: nat, d: nat)
    requires
        m <= n,
        d >= 1,
    ensures
        half_even(m, d) <= half_even(n, d),
{
    lemma_div_is_ordered(m as int, n as int, d as int);
    lemma_fundamental_div_mod(m as int, d as int);
    lemma_fundamental_div_mod(n as int, d as int);
    if m / d == n / d {
        assert(m % d <= n % d);
    }
}

/// A whole number is rounded to itself.
proof fn lemma_half_even_exact(q: nat, d: nat)
    requires
        d >= 1,
    ensures
        half_even(q * d, d) == q,
{
    lemma_div_multiples_vanish(q as int, d as int);
    lemma_mod_multiples_basic(q as int, d as int);
    assert(q * d == d * q) by (nonlinear_arith);
}

/// Rounding to 24 significant bits keeps the order.
proof fn lemma_rounded_order(m: nat, n: nat, b: nat)
    requires
        m <= n,
        b >= 1,
    ensures
        rounded(m, b) <= rounded(n, b),
{
    let x = m / b;
    let y = n / b;
    let s = scale(x);
    let t = scale(y);
    lemma_div_is_ordered(m as int, n as int, b as int);
    lemma_scale_range(x);
    lemma_scale_range(y);
    lemma_scale_order(x, y);
    assert(b * s >= 1 && b * t >= 1) by (nonlinear_arith)
        requires
            b >= 1,
            s >= 1,
            t >= 1,
    ;
    if s == t {
        lemma_half_even_order(m, n, b * s);
        let p = half_even(m, b * s);
        let q = half_even(n, b * s);
        assert(p * s <= q * s) by (nonlinear_arith)
            requires
                p <= q,
        ;
    } else {
        let p = half_even(m, b * s);
        let q = half_even(n, b * t);
        lemma_div_denominator(m as int, b as int, s as int);
        lemma_div_denominator(n as int, b as int, t as int);
        assert(x / s < SIGNIFICAND_LIMIT) by (nonlinear_arith)
            requires
                x < SIGNIFICAND_LIMIT * s,
                s >= 1,
        ;
        assert(y / t >= 8_388_608) by (nonlinear_arith)
            requires
                8_388_608 * t <= y,
                t >= 1,
        ;
        assert(p <= SIGNIFICAND_LIMIT);
        assert(q >= 8_388_608);
        assert(p * s <= q * t) by (nonlinear_arith)
            requires
                p <= 16_777_216,
                q >= 8_388_608,
                t >= 2 * s,
                s >= 1,
                SIGNIFICAND_LIMIT == 16_777_216,
        ;
    }
}

/// What has 24 significant bits is rounded to itself.
proof fn lemma_rounded_exact(q: nat, s: nat, b: nat)
    requires
        b >= 1,
        scale(q * s) == s,
    ensures
        rounded(b * (q * s), b) == q * s,
{
    let x = q * s;
    lemma_scale_range(x);
    lemma_div_multiples_vanish(x as int, b as int);
    assert(b * x == x * b) by (nonlinear_arith);
    assert(b * s >= 1) by (nonlinear_arith)
        requires
            b >= 1,
            s >= 1,
    ;
    assert(b * x == q * (b * s)) by (nonlinear_arith)
        requires
            x == q * s,
    ;
    lemma_half_even_exact(q, b * s);
}

proof fn lemma_round_single_is(x: nat)
    ensures
        round_single(x) == rounded(x, 1),
{
    assert(x / 1 == x);
    assert(1 * scale(x) == scale(x));
}

/// Counts of up to 24 bits are held exactly.
proof fn lemma_count_is_exact(x: nat)
    requires
        x <= SIGNIFICAND_LIMIT,
    ensures
        round_single(x) == x,
{
    if x < SIGNIFICAND_LIMIT {
        lemma_half_even_exact(x, 1);
        assert(x * 1 == x);
    } else {
        assert(scale(8_388_608) == 1);
        assert(scale(16_777_216) == 2 * scale(8_388_608));
        lemma_half_even_exact(8_388_608, 2);
    }
}

/// The percentage as the rounding of two quotients.
spec fn percent(c: nat, total: nat) -> nat {
    rounded(100 * rounded(c * QUOTIENT_UNIT as nat, total), 1) / QUOTIENT_UNIT as nat
}

proof fn lemma_percent(c: u32, total: u32)
    requires
        0 < total <= SIGNIFICAND_LIMIT,
        c <= total,
    ensures
        percent(c as nat, total as nat) <= 255 ==> percentage_of(c, total) == percent(
            c as nat,
            total as nat,
        ),
{
    lemma_count_is_exact(c as nat);
    lemma_count_is_exact(total as nat);
    let quotient = single_quotient(c as nat, total as nat);
    lemma_round_single_is(100 * quotient);
}

proof fn lemma_percent_order(a: nat, b: nat, total: nat)
    requires
        a <= b,
        total >= 1,
    ensures
        percent(a, total) <= percent(b, total),
{
    let unit = QUOTIENT_UNIT as nat;
    assert(a * unit <= b * unit) by (nonlinear_arith)
        requires
            a <= b,
    ;
    lemma_rounded_order(a * unit, b * unit, total);
    let p = rounded(a * unit, total);
    let q = rounded(b * unit, total);
    lemma_rounded_order(100 * p, 100 * q, 1);
    lemma_div_is_ordered(
        rounded(100 * p, 1) as int,
        rounded(100 * q, 1) as int,
        QUOTIENT_UNIT as int,
    );
}

/// All chunks make a hundred.
proof fn lemma_percent_full(total: nat)
    requires
        total >= 1,
    ensures
        percent(total, total) == 100,
{
    let unit = QUOTIENT_UNIT as nat;
    lemma2_to64();
    lemma2_to64_rest();
    lemma_scale_is(unit, 37);
    lemma_rounded_exact(8_388_608, pow2(37), total);
    assert(8_388_608 * pow2(37) == unit);
    lemma_scale_is(100 * unit, 43);
    lemma_rounded_exact(13_107_200, pow2(43), 1);
    assert(13_107_200 * pow2(43) == 100 * unit);
}

/// All chunks but one make less than a hundred.
proof fn lemma_percent_almost(total: nat)
    requires
        1 <= total <= SIGNIFICAND_LIMIT,
    ensures
        percent((total - 1) as nat, total) <= 99,
{
    let unit = QUOTIENT_UNIT as nat;
    let n = ((total - 1) * unit) as nat;
    lemma2_to64();
    lemma2_to64_rest();
    // The largest 24-bit fraction below one.
    let top = (16_777_215 * pow2(36)) as nat;
    assert(top == unit - pow2(36));
    lemma_scale_is(top, 36);
    lemma_rounded_exact(16_777_215, pow2(36), total);
    assert(n <= total * top) by (nonlinear_arith)
        requires
            n == (total - 1) * unit,
            top == unit - 68_719_476_736,
            unit == 1_152_921_504_606_846_976,
            1 <= total <= 16_777_216,
    ;
    lemma_rounded_order(n, total * top, total);
    let p = rounded(n, total);
    assert(p <= top);
    // A hundred times it is nearest to a number below a hundred.
    let x = 100 * top;
    lemma_scale_is(x, 43);
    let s = pow2(43);
    assert(x / s == 13_107_199 && x % s == x - 13_107_199 * s) by {
        lemma_fundamental_div_mod(x as int, s as int);
    }
    assert(1 * s == s);
    assert(x / 1 == x);
    assert(rounded(x, 1) < 100 * unit);
    lemma_rounded_order(100 * p, x, 1);
    assert(rounded(100 * p, 1) / unit <= 99);
}

/// A percentage grows with the chunks that are in, from 0 to 100 and no further,
/// and shows 100 only once every chunk is in. It does so for up to 16777216
/// chunks, which is as far as single precision counts.
pub proof fn a_percentage_is_full_only_at_the_end(c1: u32, c2: u32, total: u32)
    requires
        0 < total <= SIGNIFICAND_LIMIT,
        c1 <= c2 <= total,
    ensures
        percentage_of(c1, total) <= percentage_of(c2, total) <= 100,
        percentage_of(0, total) == 0,
        percentage_of(c2, total) == 100 <==> c2 == total,
{
    let t = total as nat;
    lemma_percent_order(c1 as nat, c2 as nat, t);
    lemma_percent_order(c2 as nat, t, t);
    lemma_percent_full(t);
    lemma_percent(c1, total);
    lemma_percent(c2, total);
    lemma_percent(0, total);
    if c2 < total {
        lemma_percent_order(c2 as nat, (t - 1) as nat, t);
        lemma_percent_almost(t);
    }
    lemma_half_even_exact(0, t);
    lemma_half_even_exact(0, 1);
    assert(0nat / t == 0) by (nonlinear_arith)
        requires
            t >= 1,
    ;
    assert(0 * QUOTIENT_UNIT as nat == 0);
    assert(scale(0) == 1);
    assert(t * scale(0) == t) by (nonlinear_arith)
        requires
            scale(0) == 1,
    ;
    assert(0 * t == 0);
    assert(rounded(0, t) == 0);
    assert(rounded(0, 1) == 0);
    assert(percent(0, t) == 0);
}

proof fn lemma_rounded_near(n: nat, b: nat)
    requires
        b >= 1,
    ensures
        2 * (rounded(n, b) * b) <= 2 * n + b * scale(n / b),
        2 * n <= 2 * (rounded(n, b) * b) + b * scale(n / b),
{
    let s = scale(n / b);
    lemma_scale_range(n / b);
    let d = b * s;
    assert(d >= 1) by (nonlinear_arith)
        requires
            b >= 1,
            s >= 1,
            d == b * s,
    ;
    let q = n / d;
    let h = half_even(n, d);
    lemma_fundamental_div_mod(n as int, d as int);
    assert(n % d < d);
    assert(n == d * q + n % d);
    assert((q + 1) * d == d * q + d && q * d == d * q) by (nonlinear_arith);
    assert(2 * (h * d) <= 2 * n + d && 2 * n <= 2 * (h * d) + d);
    assert(h * s * b == h * d) by (nonlinear_arith)
        requires
            d == b * s,
    ;
}

/// A percentage is the truncated share of the chunks that are in: it is no more
/// than that share and less than one below it, give or take a thousandth.
pub proof fn a_percentage_is_the_share_that_is_in(c: u32, total: u32)
    requires
        0 < total <= SIGNIFICAND_LIMIT,
        c <= total,
    ensures
        1000 * percentage_of(c, total) * total <= 100_000 * c + total,
        100_000 * c <= 1000 * (percentage_of(c, total) + 1) * total + total,
{
    let unit = QUOTIENT_UNIT as nat;
    let t = total as nat;
    let n = c as nat * unit;
    let q = rounded(n, t);
    let r = rounded(100 * q, 1);
    let p = percent(c as nat, t);
    a_percentage_is_full_only_at_the_end(c, c, total);
    lemma_percent_order(c as nat, t, t);
    lemma_percent_full(t);
    lemma_percent(c, total);
    assert(percentage_of(c, total) == p);
    let s = scale(n / t);
    let z = scale(100 * q);
    lemma_rounded_near(n, t);
    lemma_rounded_near(100 * q, 1);
    lemma_scale_range(n / t);
    lemma_scale_range(100 * q);
    assert(n <= t * unit) by (nonlinear_arith)
        requires
            n == c as nat * unit,
            c <= t,
    ;
    assert(n / t <= unit) by (nonlinear_arith)
        requires
            n <= t * unit,
            t >= 1,
    ;
    assert(s <= 137_438_953_472);
    assert(t * s <= t * 137_438_953_472) by (nonlinear_arith)
        requires
            s <= 137_438_953_472,
    ;
    assert(q <= unit + 137_438_953_472) by (nonlinear_arith)
        requires
            2 * (q * t) <= 2 * n + t * s,
            n <= t * unit,
            t * s <= t * 137_438_953_472,
            t >= 1,
    ;
    assert((100 * q) / 1 == 100 * q);
    assert(z <= 20_000_000_000_000);
    assert(2 * r <= 200 * q + z && 200 * q <= 2 * r + z) by {
        assert(r * 1 == r && 1 * z == z);
    }
    lemma_fundamental_div_mod(r as int, unit as int);
    assert(p * unit <= r < p * unit + unit) by (nonlinear_arith)
        requires
            r == unit * (r / unit) + r % unit,
            0 <= r % unit < unit,
            p == r / unit,
    ;
    // Both roundings together are off by less than a thousandth of a unit.
    let slack: nat = 1_152_921_504_606_846;
    assert(2 * (r * t) <= 200 * n + 2 * slack * t) by (nonlinear_arith)
        requires
            2 * r <= 200 * q + z,
            2 * (q * t) <= 2 * n + t * s,
            t * s <= t * 137_438_953_472,
            z <= 20_000_000_000_000,
            slack == 1_152_921_504_606_846,
            t >= 1,
    ;
    assert(200 * n <= 2 * (r * t) + 2 * slack * t) by (nonlinear_arith)
        requires
            200 * q <= 2 * r + z,
            2 * n <= 2 * (q * t) + t * s,
            t * s <= t * 137_438_953_472,
            z <= 20_000_000_000_000,
            slack == 1_152_921_504_606_846,
            t >= 1,
    ;
    assert(1000 * p * t <= 100_000 * c + t) by (nonlinear_arith)
        requires
            p * unit <= r,
            2 * (r * t) <= 200 * n + 2 * slack * t,
            n == c as nat * unit,
            1000 * slack <= unit,
            unit > 0,
            t >= 1,
    ;
    assert(100_000 * c <= 1000 * (p + 1) * t + t) by (nonlinear_arith)
        requires
            r < p * unit + unit,
            200 * n <= 2 * (r * t) + 2 * slack * t,
            n == c as nat * unit,
            1000 * slack <= unit,
            unit > 0,
            t >= 1,
    ;
}

} // verus!
