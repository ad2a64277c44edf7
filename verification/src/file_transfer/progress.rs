//! Transfer progress.
//!
//! The percentage is the one that single-precision arithmetic gives for
//! `chunks_completed / total_chunks * 100`, cut to a whole number. Each of its
//! roundings (both counts, the quotient, the product) keeps 24 significant bits,
//! nearest with ties to even; here they are carried out exactly in integers.

use vstd::prelude::*;

verus! {

/// 2^24: the first number that needs more than 24 significant bits.
pub const SIGNIFICAND_LIMIT: u128 = 16_777_216;

/// 2^60: quotients are held as multiples of 2^-60.
pub const QUOTIENT_UNIT: u128 = 1_152_921_504_606_846_976;

/// `n / d` rounded to the nearest whole number, ties to the even one.
pub open spec fn half_even(n: nat, d: nat) -> nat {
    let q = n / d;
    let r = n % d;
    if 2 * r < d {
        q
    } else if 2 * r > d {
        q + 1
    } else if q % 2 == 0 {
        q
    } else {
        q + 1
    }
}

/// The power of two by which `x` must be divided to leave 24 significant bits.
pub open spec fn scale(x: nat) -> nat
    decreases x,
{
    if x < SIGNIFICAND_LIMIT {
        1
    } else {
        2 * scale(x / 2)
    }
}

/// `x` rounded to 24 significant bits.
pub open spec fn round_single(x: nat) -> nat {
    half_even(x, scale(x)) * scale(x)
}

/// `a / b` rounded to 24 significant bits, in units of 2^-60.
pub open spec fn single_quotient(a: nat, b: nat) -> nat {
    let s = scale(a * QUOTIENT_UNIT as nat / b);
    half_even(a * QUOTIENT_UNIT as nat, b * s) * s
}

/// `completed / total * 100` in single precision, cut to a whole number of at
/// most 255; zero where there is nothing to complete.
pub open spec fn percentage_of(completed: u32, total: u32) -> u8 {
    if total == 0 {
        0
    } else {
        let quotient = single_quotient(round_single(completed as nat), round_single(total as nat));
        let percent = round_single(100 * quotient) / QUOTIENT_UNIT as nat;
        if percent > 255 {
            255
        } else {
            percent as u8
        }
    }
}

proof fn lemma_scale(x: nat)
    ensures
        1 <= scale(x),
        scale(x) <= x || scale(x) == 1,
    decreases x,
{
    if x >= SIGNIFICAND_LIMIT {
        lemma_scale(x / 2);
    }
}

proof fn lemma_half_even_product(n: nat, b: nat, s: nat)
    requires
        1 <= b,
        1 <= s,
    ensures
        half_even(n, b * s) * s <= n / b + s,
        b * s >= 1,
{
    let d = b * s;
    assert(d >= 1) by (nonlinear_arith)
        requires
            b >= 1,
            s >= 1,
            d == b * s,
    ;
    let q = n / d;
    vstd::arithmetic::div_mod::lemma_div_denominator(n as int, b as int, s as int);
    assert(q == (n / b) / s);
    vstd::arithmetic::div_mod::lemma_fundamental_div_mod((n / b) as int, s as int);
    assert(s * q <= n / b) by (nonlinear_arith)
        requires
            (n / b) == s * ((n / b) / s) + (n / b) % s,
            q == (n / b) / s,
            (n / b) % s >= 0,
            s >= 1,
    ;
    assert(half_even(n, d) <= q + 1);
    assert(half_even(n, d) * s <= (q + 1) * s) by (nonlinear_arith)
        requires
            half_even(n, d) <= q + 1,
    ;
    assert((q + 1) * s == s * q + s) by (nonlinear_arith);
}

proof fn lemma_round_single(x: nat)
    ensures
        round_single(x) <= 2 * x + 1,
        x >= 1 ==> round_single(x) >= 1,
{
    lemma_scale(x);
    let s = scale(x);
    lemma_half_even_product(x, 1, s);
    assert(1 * s == s);
    assert(x / 1 == x);
    if x >= 1 {
        assert(half_even(x, s) >= x / s);
        assert(x / s >= 1) by (nonlinear_arith)
            requires
                1 <= s <= x,
        ;
        assert(half_even(x, s) * s >= 1) by (nonlinear_arith)
            requires
                half_even(x, s) >= 1,
                s >= 1,
        ;
    }
}

fn half_even_exec(n: u128, d: u128) -> (r: u128)
    requires
        1 <= d,
        n < 0x4000_0000_0000_0000_0000_0000_0000_0000,
        d < 0x4000_0000_0000_0000_0000_0000_0000_0000,
    ensures
        r == half_even(n as nat, d as nat),
        r <= n + 1,
{
    let q: u128 = n / d;
    let rest: u128 = n % d;
    proof {
        assert(q <= n) by (nonlinear_arith)
            requires
                q == n / d,
                d >= 1,
        ;
    }
    if 2 * rest < d {
        q
    } else if 2 * rest > d {
        q + 1
    } else if q % 2 == 0 {
        q
    } else {
        q + 1
    }
}

fn scale_exec(x: u128) -> (r: u128)
    ensures
        r == scale(x as nat),
    decreases x,
{
    if x < SIGNIFICAND_LIMIT {
        1
    } else {
        proof {
            lemma_scale((x / 2) as nat);
        }
        2 * scale_exec(x / 2)
    }
}

fn round_single_exec(x: u128) -> (r: u128)
    requires
        x < 0x1000_0000_0000_0000_0000_0000_0000_0000,
    ensures
        r == round_single(x as nat),
{
    let s: u128 = scale_exec(x);
    proof {
        lemma_scale(x as nat);
        lemma_round_single(x as nat);
    }
    half_even_exec(x, s) * s
}

/// File transfer progress information.
#[derive(Debug, Clone)]
pub struct FileProgress {
    /// File identifier.
    pub file_id: String,
    /// File name.
    pub file_name: String,
    /// Total file size.
    pub file_size: u64,
    /// Number of chunks sent or received.
    pub chunks_completed: u32,
    /// Total number of chunks.
    pub total_chunks: u32,
    /// Progress percentage (0-100).
    pub percentage: u8,
}

/// Progress as mathematical values.
#[verifier::ext_equal]
pub struct FileProgressView {
    pub file_id: Seq<char>,
    pub file_name: Seq<char>,
    pub file_size: u64,
    pub chunks_completed: u32,
    pub total_chunks: u32,
    pub percentage: u8,
}

impl View for FileProgress {
    type V = FileProgressView;

    open spec fn view(&self) -> FileProgressView {
        FileProgressView {
            file_id: self.file_id@,
            file_name: self.file_name@,
            file_size: self.file_size,
            chunks_completed: self.chunks_completed,
            total_chunks: self.total_chunks,
            percentage: self.percentage,
        }
    }
}

impl FileProgress {
    /// Calculates the progress percentage.
    pub fn calculate_percentage(chunks_completed: u32, total_chunks: u32) -> (r: u8)
        ensures
            r == percentage_of(chunks_completed, total_chunks),
    {
        if total_chunks == 0 {
            return 0;
        }
        proof {
            lemma_round_single(chunks_completed as nat);
            lemma_round_single(total_chunks as nat);
        }
        let a: u128 = round_single_exec(chunks_completed as u128);
        let b: u128 = round_single_exec(total_chunks as u128);
        let n: u128 = a * QUOTIENT_UNIT;
        let s: u128 = scale_exec(n / b);
        proof {
            assert(n / b <= n) by (nonlinear_arith)
                requires
                    b >= 1,
            ;
            lemma_scale((n / b) as nat);
            vstd::arithmetic::div_mod::lemma_fundamental_div_mod(n as int, b as int);
            assert(b * s <= b || b * s <= n) by (nonlinear_arith)
                requires
                    b >= 1,
                    s == 1 || s <= n / b,
                    n == b * (n / b) + n % b,
                    n % b >= 0,
            ;
            lemma_half_even_product(n as nat, b as nat, s as nat);
        }
        let d: u128 = b * s;
        let quotient: u128 = half_even_exec(n, d) * s;
        let percent: u128 = round_single_exec(100 * quotient) / QUOTIENT_UNIT;
        if percent > 255 {
            255
        } else {
            percent as u8
        }
    }
}

} // verus!
