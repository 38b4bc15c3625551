//! Doubles without floating point. Every finite non-negative double is a
//! whole number of ticks of `2^-1074`, its smallest positive value; a value
//! `m × 2^j` ticks with `m <= 2^53` is held as the pair `(m, j)`. Rounding a
//! quotient to the nearest double, ties to the even mantissa, is what IEEE
//! 754 division, decimal parsing and the conversion of constants do.

use vstd::prelude::*;
use crate::amount::{digits_less, lemma_div_at_least, lemma_two_pow_adds, lemma_two_pow_positive, two_pow};
use crate::digits::{dval, is_digits, mul_small};

verus! {

// ---------------------------------------------------------------------------
// Rounding to a double
// ---------------------------------------------------------------------------
/// The number of bits of `n`: 0 for zero, else `l + 1` where
/// `2^l <= n < 2^(l+1)`.
pub open spec fn bitlen(n: nat) -> nat
    decreases n,
{
    if n == 0 {
        0
    } else {
        1 + bitlen(n / 2)
    }
}

/// `a / b` rounded to a whole number, half to even.
pub open spec fn half_even(a: nat, b: nat) -> nat {
    let q = a / b;
    let r = a % b;
    if 2 * r > b || (2 * r == b && q % 2 == 1) {
        q + 1
    } else {
        q
    }
}

/// The binary exponent of the last mantissa bit of a double near `a / b`
/// ticks: 0 up to `2^53` ticks, then one more for each doubling.
pub open spec fn double_shift(a: nat, b: nat) -> nat {
    let l = bitlen(a / b);
    if l > 53 {
        (l - 53) as nat
    } else {
        0
    }
}

/// `a / b` ticks rounded to the nearest double, ties to the even mantissa,
/// in ticks.
pub open spec fn nearest_double(a: nat, b: nat) -> nat {
    let j = double_shift(a, b);
    half_even(a, b * two_pow(j)) * two_pow(j)
}

proof fn lemma_bitlen(n: nat, l: nat)
    requires
        two_pow(l) <= n < two_pow(l + 1),
    ensures
        bitlen(n) == l + 1,
    decreases l,
{
    assert(two_pow(l + 1) == 2 * two_pow(l));
    if l == 0 {
        assert(two_pow(0) == 1);
        assert(n == 1);
        assert(bitlen(0) == 0);
    } else {
        assert(two_pow(l) == 2 * two_pow((l - 1) as nat));
        assert(((l - 1) as nat) + 1 == l);
        lemma_bitlen(n / 2, (l - 1) as nat);
    }
}

proof fn lemma_bitlen_below(n: nat, l: nat)
    requires
        n < two_pow(l),
    ensures
        bitlen(n) <= l,
    decreases l,
{
    if n > 0 {
        if l == 0 {
            assert(two_pow(0) == 1);
        } else {
            assert(two_pow(l) == 2 * two_pow((l - 1) as nat));
            lemma_bitlen_below(n / 2, (l - 1) as nat);
        }
    }
}

/// The shift of a quotient of at least `2^(52+j)` and below `2^(53+j)`
/// ticks is `j`; below `2^53` ticks it is 0.
proof fn lemma_shift(a: nat, b: nat, j: nat)
    requires
        b > 0,
        a < b * two_pow(53 + j),
        j > 0 ==> a >= b * two_pow(52 + j),
    ensures
        double_shift(a, b) == j,
{
    let q = a / b;
    lemma_div_at_least(a, b, two_pow(53 + j));
    if j == 0 {
        lemma_bitlen_below(q, 53);
    } else {
        lemma_div_at_least(a, b, two_pow(52 + j));
        assert((52 + j) + 1 == 53 + j);
        lemma_bitlen(q, 52 + j);
    }
}

/// `a / b` with `a < b`: half to even is 0 or 1 by `2a` against `b`.
pub proof fn lemma_half_even_of(a: nat, b: nat, m: nat)
    requires
        b > 0,
        m * b <= a < (m + 1) * b,
    ensures
        a / b == m,
        a % b == a - m * b,
        half_even(a, b) == if 2 * a > (2 * m + 1) * b || (2 * a == (2 * m + 1) * b && m % 2 == 1) {
            m + 1
        } else {
            m
        },
{
    let r = (a - m * b) as int;
    assert(a == m * b + r);
    assert((m + 1) * b == m * b + b) by (nonlinear_arith);
    vstd::arithmetic::div_mod::lemma_fundamental_div_mod_converse(a as int, b as int, m as int, r);
    assert((2 * m + 1) * b == 2 * (m * b) + b) by (nonlinear_arith);
}

/// Nothing below half a tick survives rounding.
pub proof fn lemma_nearest_tiny(a: nat, b: nat)
    requires
        b > 0,
        2 * a < b,
    ensures
        nearest_double(a, b) == 0,
{
    assert(0 * b == 0 && (0 + 1) * b == b) by (nonlinear_arith);
    lemma_half_even_of(a, b, 0);
    assert(a / b == 0);
    assert(bitlen(0) == 0);
    assert(double_shift(a, b) == 0);
    assert(two_pow(0) == 1);
    assert(b * two_pow(0) == b);
    assert(half_even(a, b) == 0);
    assert(half_even(a, b * two_pow(0)) * two_pow(0) == 0);
}

/// A quotient of at least one tick rounds to a positive double.
pub proof fn lemma_nearest_positive(a: nat, b: nat)
    requires
        b > 0,
        a >= b,
    ensures
        nearest_double(a, b) >= 1,
{
    let j = double_shift(a, b);
    let q = a / b;
    lemma_div_at_least(a, b, 1);
    lemma_two_pow_positive(j);
    if j > 0 {
        // q has 53 + j bits, so it is at least 2^(52 + j)
        if q < two_pow(52 + j) {
            lemma_bitlen_below(q, 52 + j);
            assert(false);
        }
        lemma_div_at_least(a, b, two_pow(52 + j));
        lemma_two_pow_adds(j, 52);
        lemma_two_pow_positive(52);
        let t = two_pow(j);
        assert(b * two_pow(52 + j) >= b * t) by (nonlinear_arith)
            requires
                two_pow(52 + j) == t * two_pow(52),
                two_pow(52) >= 1,
        ;
    }
    let bt = b * two_pow(j);
    assert(bt > 0) by (nonlinear_arith)
        requires
            b > 0,
            two_pow(j) >= 1,
            bt == b * two_pow(j),
    ;
    assert(a >= bt);
    lemma_div_at_least(a, bt, 1);
    let h = half_even(a, bt);
    assert(h >= 1);
    assert(h * two_pow(j) >= 1) by (nonlinear_arith)
        requires
            h >= 1,
            two_pow(j) >= 1,
    ;
}

/// `x * c` over `y * c` has the quotient of `x` over `y` and `c` times its
/// remainder.
pub proof fn lemma_scale_div_mod(x: nat, y: nat, c: nat)
    requires
        y > 0,
        c > 0,
    ensures
        (x * c) / (y * c) == x / y,
        (x * c) % (y * c) == (x % y) * c,
        half_even(x * c, y * c) == half_even(x, y),
{
    let q = x / y;
    let r = x % y;
    vstd::arithmetic::div_mod::lemma_fundamental_div_mod(x as int, y as int);
    vstd::arithmetic::div_mod::lemma_mod_bound(x as int, y as int);
    assert(x * c == q * (y * c) + r * c) by (nonlinear_arith)
        requires
            x == y * q + r,
    ;
    assert(r * c < y * c) by (nonlinear_arith)
        requires
            r < y,
            c > 0,
    ;
    assert(y * c > 0) by (nonlinear_arith)
        requires
            y > 0,
            c > 0,
    ;
    vstd::arithmetic::div_mod::lemma_fundamental_div_mod_converse(
        (x * c) as int,
        (y * c) as int,
        q as int,
        (r * c) as int,
    );
    assert(2 * (r * c) > y * c <==> 2 * r > y) by (nonlinear_arith)
        requires
            c > 0,
    ;
    assert(2 * (r * c) == y * c <==> 2 * r == y) by (nonlinear_arith)
        requires
            c > 0,
    ;
}

// ---------------------------------------------------------------------------
// Executable doubles
// ---------------------------------------------------------------------------
/// `2^53`.
pub proof fn lemma_two_pow_53()
    ensures
        two_pow(53) == 9007199254740992,
        two_pow(52) == 4503599627370496,
{
    reveal_with_fuel(two_pow, 54);
}

/// `2^60`, `2^61` and `2^63`.
pub proof fn lemma_two_pow_large()
    ensures
        two_pow(59) == 0x0800_0000_0000_0000,
        two_pow(60) == 0x1000_0000_0000_0000,
        two_pow(61) == 0x2000_0000_0000_0000,
        two_pow(63) == 0x8000_0000_0000_0000,
{
    lemma_two_pow_53();
    lemma_two_pow_adds(53, 6);
    lemma_two_pow_adds(53, 7);
    lemma_two_pow_adds(53, 8);
    lemma_two_pow_adds(53, 10);
    reveal_with_fuel(two_pow, 11);
}

/// `2^a <= 2^b` for `a <= b`.
pub proof fn lemma_two_pow_monotone(a: nat, b: nat)
    requires
        a <= b,
    ensures
        two_pow(a) <= two_pow(b),
{
    lemma_two_pow_adds(a, (b - a) as nat);
    lemma_two_pow_positive((b - a) as nat);
    assert(two_pow(a) * two_pow((b - a) as nat) >= two_pow(a)) by (nonlinear_arith)
        requires
            two_pow((b - a) as nat) >= 1,
    ;
}

/// `2^e` for `e < 64`.
pub fn small_two_pow(e: u64) -> (r: u64)
    requires
        e < 64,
    ensures
        r == two_pow(e as nat),
        r >= 1,
{
    proof {
        lemma_two_pow_positive(e as nat);
        lemma_two_pow_large();
    }
    let mut r: u64 = 1;
    let mut i: u64 = 0;
    while i < e
        invariant
            i <= e < 64,
            r == two_pow(i as nat),
            two_pow(63) == 0x8000_0000_0000_0000,
        decreases e - i,
    {
        proof {
            assert(two_pow((i + 1) as nat) == 2 * two_pow(i as nat));
            lemma_two_pow_monotone((i + 1) as nat, 63);
        }
        r = r * 2;
        i += 1;
    }
    r
}

/// The digits of `n`.
pub fn digits_of(n: u64) -> (r: Vec<u8>)
    requires
        n < 0x1000_0000_0000_0000,
    ensures
        is_digits(r@),
        dval(r@) == n,
{
    let mut one: Vec<u8> = Vec::new();
    one.push(1);
    proof {
        crate::digits::lemma_dval_single(1);
        assert(one@ == seq![1u8]);
    }
    mul_small(&one, n)
}

/// The digits of `dval(v) × 2^j`.
pub fn times_two_pow(v: &Vec<u8>, j: usize) -> (r: Vec<u8>)
    requires
        is_digits(v@),
    ensures
        is_digits(r@),
        dval(r@) == dval(v@) * two_pow(j as nat),
{
    let mut w = mul_small(v, 1);
    let mut i: usize = 0;
    assert(two_pow(0) == 1);
    proof {
        lemma_two_pow_large();
    }
    while j - i >= 59
        invariant
            i <= j,
            is_digits(w@),
            dval(w@) == dval(v@) * two_pow(i as nat),
            two_pow(59) == 0x0800_0000_0000_0000,
        decreases j - i,
    {
        proof {
            lemma_two_pow_adds(i as nat, 59);
            assert(dval(v@) * two_pow(i as nat) * two_pow(59) == dval(v@) * two_pow((i + 59) as nat)) by (nonlinear_arith)
                requires
                    two_pow((i + 59) as nat) == two_pow(i as nat) * two_pow(59),
            ;
        }
        w = mul_small(&w, 0x0800_0000_0000_0000);
        i += 59;
    }
    while i < j
        invariant
            i <= j,
            is_digits(w@),
            dval(w@) == dval(v@) * two_pow(i as nat),
        decreases j - i,
    {
        proof {
            assert(two_pow((i + 1) as nat) == 2 * two_pow(i as nat));
            assert(dval(v@) * two_pow(i as nat) * 2 == dval(v@) * two_pow((i + 1) as nat)) by (nonlinear_arith)
                requires
                    two_pow((i + 1) as nat) == 2 * two_pow(i as nat),
            ;
        }
        w = mul_small(&w, 2);
        i += 1;
    }
    w
}

/// The digits of `m × 2^j`.
pub fn ticks_digits(m: u64, j: usize) -> (r: Vec<u8>)
    requires
        m < 0x1000_0000_0000_0000,
    ensures
        is_digits(r@),
        dval(r@) == m * two_pow(j as nat),
{
    let v = digits_of(m);
    times_two_pow(&v, j)
}

/// `dval(a) / dval(b)` ticks rounded to the nearest double, as `(m, j)`
/// with the double `m × 2^j` ticks.
pub fn round_ratio(a: &Vec<u8>, b: &Vec<u8>) -> (r: (u64, usize))
    requires
        is_digits(a@),
        is_digits(b@),
        dval(b@) > 0,
        dval(a@) < dval(b@) * two_pow(2100),
    ensures
        r.0 <= two_pow(53),
        r.1 <= 2047,
        r.0 * two_pow(r.1 as nat) == nearest_double(dval(a@), dval(b@)),
{
    let ghost av = dval(a@);
    let ghost bv = dval(b@);
    proof {
        lemma_two_pow_53();
    }
    let mut q = mul_small(b, 1);
    let mut p = mul_small(b, 9007199254740992);
    let mut j: usize = 0;
    assert(53 + 0 == 53nat);
    assert(two_pow(0) == 1);
    proof {
        lemma_two_pow_large();
    }
    while !digits_less(a, &mul_small(&p, 0x0800_0000_0000_0000))
        invariant
            is_digits(a@),
            is_digits(q@),
            is_digits(p@),
            av == dval(a@),
            bv > 0,
            av < bv * two_pow(2100),
            j <= 2047,
            two_pow(59) == 0x0800_0000_0000_0000,
            dval(q@) == bv * two_pow(j as nat),
            dval(p@) == bv * two_pow((53 + j) as nat),
            j > 0 ==> av >= bv * two_pow((52 + j) as nat),
        decreases 2047 - j,
    {
        proof {
            let t = two_pow(j as nat);
            let u = two_pow((53 + j) as nat);
            lemma_two_pow_adds(j as nat, 59);
            lemma_two_pow_adds((53 + j) as nat, 59);
            assert(bv * u * two_pow(59) == bv * two_pow((53 + j + 59) as nat)) by (nonlinear_arith)
                requires
                    two_pow((53 + j + 59) as nat) == u * two_pow(59),
            ;
            assert(bv * t * two_pow(59) == bv * two_pow((j + 59) as nat)) by (nonlinear_arith)
                requires
                    two_pow((j + 59) as nat) == t * two_pow(59),
            ;
            if j + 59 >= 2047 {
                lemma_two_pow_monotone(2100, (53 + j + 59) as nat);
                assert(bv * two_pow(2100) <= bv * two_pow((53 + j + 59) as nat)) by (nonlinear_arith)
                    requires
                        two_pow(2100) <= two_pow((53 + j + 59) as nat),
                ;
                assert(false);
            }
            lemma_two_pow_monotone((52 + j + 59) as nat, (53 + j + 59) as nat);
            assert(bv * two_pow((52 + j + 59) as nat) <= bv * two_pow((53 + j + 59) as nat)) by (nonlinear_arith)
                requires
                    two_pow((52 + j + 59) as nat) <= two_pow((53 + j + 59) as nat),
            ;
        }
        p = mul_small(&p, 0x0800_0000_0000_0000);
        q = mul_small(&q, 0x0800_0000_0000_0000);
        j += 59;
    }
    while !digits_less(a, &p)
        invariant
            is_digits(a@),
            is_digits(q@),
            is_digits(p@),
            av == dval(a@),
            bv > 0,
            av < bv * two_pow(2100),
            j <= 2047,
            dval(q@) == bv * two_pow(j as nat),
            dval(p@) == bv * two_pow((53 + j) as nat),
            j > 0 ==> av >= bv * two_pow((52 + j) as nat),
        decreases 2047 - j,
    {
        if j == 2047 {
            assert((53 + j) as nat == 2100);
            assert(false);
        }
        proof {
            let t = two_pow(j as nat);
            let u = two_pow((53 + j) as nat);
            assert(two_pow((j + 1) as nat) == 2 * t);
            assert(two_pow((53 + j + 1) as nat) == 2 * u);
            assert(bv * t * 2 == bv * (2 * t)) by (nonlinear_arith);
            assert(bv * u * 2 == bv * (2 * u)) by (nonlinear_arith);
            assert((52 + (j + 1)) as nat == (53 + j) as nat);
        }
        p = mul_small(&p, 2);
        q = mul_small(&q, 2);
        j += 1;
    }
    let ghost qv = dval(q@);
    proof {
        lemma_shift(av, bv, j as nat);
        lemma_two_pow_adds(j as nat, 53);
        assert(bv * two_pow((53 + j) as nat) == qv * two_pow(53)) by (nonlinear_arith)
            requires
                two_pow((53 + j) as nat) == two_pow(j as nat) * two_pow(53),
                qv == bv * two_pow(j as nat),
        ;
        lemma_two_pow_positive(j as nat);
        assert(qv > 0) by (nonlinear_arith)
            requires
                qv == bv * two_pow(j as nat),
                bv > 0,
                two_pow(j as nat) >= 1,
        ;
    }
    // The quotient `av / qv`, bit by bit.
    let mut m: u64 = 0;
    let mut w: u64 = 9007199254740992;
    let ghost mut i: nat = 53;
    while w > 1
        invariant
            is_digits(a@),
            is_digits(q@),
            av == dval(a@),
            qv == dval(q@),
            qv > 0,
            w == two_pow(i),
            i <= 53,
            m + w <= two_pow(53),
            two_pow(53) == 9007199254740992,
            m * qv <= av,
            av < (m + w) * qv,
        decreases w,
    {
        proof {
            assert(i > 0) by {
                if i == 0 {
                    assert(two_pow(0) == 1);
                }
            }
            assert(two_pow(i) == 2 * two_pow((i - 1) as nat));
        }
        let h = w / 2;
        let c = mul_small(&q, m + h);
        if !digits_less(a, &c) {
            m = m + h;
        } else {
            proof {
                assert(qv * ((m + h) as nat) == (m + h) * qv) by (nonlinear_arith);
            }
        }
        proof {
            assert(qv * ((m + h) as nat) == (m + h) * qv) by (nonlinear_arith);
            i = (i - 1) as nat;
        }
        w = h;
    }
    proof {
        assert(w == 1) by {
            lemma_two_pow_positive(i);
        }
    }
    let a2 = mul_small(a, 2);
    let c = mul_small(&q, 2 * m + 1);
    let up = if digits_less(&c, &a2) {
        true
    } else if digits_less(&a2, &c) {
        false
    } else {
        m % 2 == 1
    };
    proof {
        lemma_half_even_of(av, qv, m as nat);
        assert(qv * ((2 * m + 1) as nat) == (2 * m + 1) * qv) by (nonlinear_arith);
        assert(av * 2 == 2 * av);
    }
    let mr = if up {
        m + 1
    } else {
        m
    };
    (mr, j)
}

} // verus!
