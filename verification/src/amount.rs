//! Display amounts. An amount of internal units is shown as `$`, a sign,
//! the number of display units (1200 internal units each) scaled to
//! thousands (`K`), millions (`M`), billions (`B`) or trillions (`T`), and up
//! to two decimals. The amount is read as a double and every division is
//! rounded to a double, as in IEEE 754 arithmetic; the last double is then
//! written with its decimals rounded half to even.

use vstd::prelude::*;
use crate::digits::{
    canonical, compare_same_len, dval, is_digits, lemma_dval_bound, lemma_dval_lower,
    lemma_dval_shift, lemma_dval_split, lemma_pow10_adds, lemma_pow10_monotone,
    lemma_pow10_positive, mul_small, pow10, push_zeros, strip_leading_zeros, zeros, Order3,
};
use crate::text::{decimal_text, digit_char};
use crate::currency::trimmed_decimal;
use crate::double::{
    digits_of, half_even, lemma_half_even_of, lemma_nearest_positive, lemma_nearest_tiny,
    lemma_scale_div_mod, lemma_two_pow_53, lemma_two_pow_large, lemma_two_pow_monotone, nearest_double, round_ratio,
    small_two_pow, ticks_digits, times_two_pow,
};

verus! {

broadcast use vstd::seq_lib::group_seq_properties;

// ---------------------------------------------------------------------------
// The largest finite double
// ---------------------------------------------------------------------------
pub open spec fn two_pow(n: nat) -> nat
    decreases n,
{
    if n == 0 {
        1
    } else {
        2 * two_pow((n - 1) as nat)
    }
}

/// The smallest amount that reads as an infinite double, `2^1024 - 2^970`:
/// every smaller one rounds to a finite value.
pub open spec fn float_limit() -> nat {
    (two_pow(1024) - two_pow(970)) as nat
}

pub proof fn lemma_two_pow_adds(a: nat, b: nat)
    ensures
        two_pow(a + b) == two_pow(a) * two_pow(b),
    decreases b,
{
    if b > 0 {
        lemma_two_pow_adds(a, (b - 1) as nat);
        assert((a + b - 1) as nat == a + (b - 1) as nat);
        assert(two_pow(a + b) == 2 * two_pow((a + b - 1) as nat));
        assert(two_pow(a) * two_pow(b) == two_pow(a) * (2 * two_pow((b - 1) as nat)));
        assert(two_pow(a) * (2 * two_pow((b - 1) as nat)) == 2 * (two_pow(a) * two_pow(
            (b - 1) as nat,
        ))) by (nonlinear_arith);
    } else {
        assert(two_pow(0) == 1);
        assert(a + b == a);
    }
}

pub proof fn lemma_two_pow_positive(n: nat)
    ensures
        two_pow(n) >= 1,
    decreases n,
{
    if n > 0 {
        lemma_two_pow_positive((n - 1) as nat);
    }
}

/// The digits of `float_limit()`.
fn float_limit_digits() -> (r: Vec<u8>)
    ensures
        canonical(r@),
        dval(r@) == float_limit(),
{
    let mut v: Vec<u8> = Vec::new();
    v.push(1);
    proof {
        crate::digits::lemma_dval_single(1);
        assert(v@ == seq![1u8]);
    }
    let mut i: usize = 0;
    while i < 970
        invariant
            i <= 970,
            is_digits(v@),
            dval(v@) == two_pow(i as nat),
        decreases 970 - i,
    {
        v = mul_small(&v, 2);
        i += 1;
    }
    proof {
        lemma_two_pow_adds(970, 54);
        reveal_with_fuel(two_pow, 55);
        assert(two_pow(54) == 18014398509481984);
        let p = two_pow(970);
        assert(p * 18014398509481984 - p == p * 18014398509481983) by (nonlinear_arith);
    }
    let f = mul_small(&v, 18014398509481983);
    strip_leading_zeros(&f)
}

// ---------------------------------------------------------------------------
// Comparing and scaling digit vectors
// ---------------------------------------------------------------------------
/// Whether `dval(a) < dval(b)`.
pub(crate) fn digits_less(a: &Vec<u8>, b: &Vec<u8>) -> (r: bool)
    requires
        is_digits(a@),
        is_digits(b@),
    ensures
        r == (dval(a@) < dval(b@)),
{
    let x = strip_leading_zeros(a);
    let y = strip_leading_zeros(b);
    if x.len() < y.len() {
        proof {
            lemma_dval_bound(x@);
            lemma_dval_lower(y@);
            lemma_pow10_monotone(x@.len(), (y@.len() - 1) as nat);
        }
        true
    } else if x.len() > y.len() {
        proof {
            lemma_dval_bound(y@);
            lemma_dval_lower(x@);
            lemma_pow10_monotone(y@.len(), (x@.len() - 1) as nat);
        }
        false
    } else {
        match compare_same_len(&x, &y) {
            Order3::Below => true,
            _ => false,
        }
    }
}

/// The first `n` digits.
fn digits_prefix(v: &Vec<u8>, n: usize) -> (r: Vec<u8>)
    requires
        n <= v.len(),
    ensures
        r@ == v@.take(n as int),
{
    let mut r: Vec<u8> = Vec::new();
    let mut i: usize = 0;
    while i < n
        invariant
            i <= n <= v.len(),
            r@ == v@.take(i as int),
        decreases n - i,
    {
        r.push(v[i]);
        i += 1;
        assert(v@.take(i as int) == v@.take(i - 1).push(v@[i - 1]));
    }
    r
}

/// `x / b >= c` exactly when `x >= b * c`.
pub proof fn lemma_div_at_least(x: nat, b: nat, c: nat)
    requires
        b > 0,
    ensures
        (x / b >= c) == (x >= b * c),
{
    let q = x / b;
    let r = x % b;
    assert(x == b * q + r) by {
        vstd::arithmetic::div_mod::lemma_fundamental_div_mod(x as int, b as int);
    }
    assert(0 <= r < b) by {
        vstd::arithmetic::div_mod::lemma_mod_bound(x as int, b as int);
    }
    if q >= c {
        assert(b * q >= b * c) by (nonlinear_arith)
            requires
                q >= c,
                b > 0,
        ;
    } else {
        assert(b * q + b <= b * c) by (nonlinear_arith)
            requires
                q + 1 <= c,
                b > 0,
        ;
    }
}

pub open spec fn scale_suffix(k: nat) -> Seq<char> {
    if k == 4 {
        seq!['T']
    } else if k == 3 {
        seq!['B']
    } else if k == 2 {
        seq!['M']
    } else if k == 1 {
        seq!['K']
    } else {
        Seq::empty()
    }
}

/// The last `p` decimal digits of `n`, with leading zeros.
pub open spec fn padded(n: nat, p: nat) -> Seq<char>
    decreases p,
{
    if p == 0 {
        Seq::empty()
    } else {
        padded(n / 10, (p - 1) as nat).push(digit_char(n % 10))
    }
}

/// `n × 10^-p` written with exactly `p` decimals.
pub open spec fn fixed_text(n: nat, p: nat) -> Seq<char> {
    if p == 0 {
        decimal_text(n)
    } else {
        decimal_text(n / pow10(p)).push('.') + padded(n % pow10(p), p)
    }
}

/// `d`'s decimal digit character.
fn digit_to_char(d: u64) -> (c: char)
    requires
        d < 10,
    ensures
        c == digit_char(d as nat),
{
    ((d as u32) + ('0' as u32)) as u8 as char
}

/// The decimal text of a canonical, non-empty digit vector.
fn digits_text(v: &Vec<u8>) -> (r: Vec<char>)
    requires
        canonical(v@),
        v@.len() > 0,
    ensures
        r@ == decimal_text(dval(v@)),
{
    let mut r: Vec<char> = Vec::new();
    r.push(digit_to_char(v[0] as u64));
    proof {
        crate::digits::lemma_dval_single(v@[0]);
        assert(v@.take(1) == seq![v@[0]]);
        assert(r@ == decimal_text(dval(v@.take(1))));
    }
    let mut i: usize = 1;
    while i < v.len()
        invariant
            canonical(v@),
            1 <= i <= v.len(),
            r@ == decimal_text(dval(v@.take(i as int))),
        decreases v.len() - i,
    {
        proof {
            let p = v@.take(i as int);
            let d = v@[i as int];
            assert(v@.take(i + 1) == p.push(d));
            crate::digits::lemma_dval_push(p, d);
            assert(canonical(p));
            lemma_dval_lower(p);
            lemma_pow10_positive((p.len() - 1) as nat);
            let n = dval(p) * 10 + d as nat;
            assert(n >= 10);
            assert(n / 10 == dval(p));
            assert(n % 10 == d as nat);
        }
        r.push(digit_to_char(v[i] as u64));
        i += 1;
    }
    assert(v@.take(v.len() as int) == v@);
    r
}

/// `fixed_text(n, p)` for up to two decimals.
fn fixed_chars(n: u64, p: u64) -> (r: Vec<char>)
    requires
        p <= 2,
    ensures
        r@ == fixed_text(n as nat, p as nat),
{
    let mut r: Vec<char> = Vec::new();
    if p == 0 {
        crate::text::push_decimal(&mut r, n as u128);
        return r;
    }
    proof {
        reveal_with_fuel(pow10, 3);
        reveal_with_fuel(padded, 3);
    }
    let unit: u64 = if p == 1 {
        10
    } else {
        100
    };
    crate::text::push_decimal(&mut r, (n / unit) as u128);
    r.push('.');
    let low = n % unit;
    if p == 2 {
        r.push(digit_to_char(low / 10));
    }
    r.push(digit_to_char(low % 10));
    proof {
        if p == 2 {
            assert((low / 10) / 10 == 0);
            assert(padded((low / 10) as nat, 1) == seq![digit_char(((low / 10) % 10) as nat)]);
            assert((low / 10) % 10 == low / 10);
        }
    }
    r
}

// ---------------------------------------------------------------------------
// The display text of a double
// ---------------------------------------------------------------------------
/// Which suffix an amount of `q` ticks of display units takes: 4 for
/// trillions, 3 for billions, 2 for millions, 1 for thousands, 0 for none.
pub open spec fn tick_level(q: nat) -> nat {
    if q >= pow10(12) * two_pow(1074) {
        4
    } else if q >= pow10(9) * two_pow(1074) {
        3
    } else if q >= pow10(6) * two_pow(1074) {
        2
    } else if q >= pow10(3) * two_pow(1074) {
        1
    } else {
        0
    }
}

/// The double nearest to `10^-7`, in ticks.
pub open spec fn small_fraction() -> nat {
    nearest_double(two_pow(1074), pow10(7))
}

/// How many decimals a scaled amount of `s` ticks is shown with: none from
/// 100 up or when its fraction is below `small_fraction()`, else one from
/// 10 up and two below.
pub open spec fn decimals_of(s: nat) -> nat {
    if s >= 100 * two_pow(1074) || s % two_pow(1074) < small_fraction() {
        0
    } else if s >= 10 * two_pow(1074) {
        1
    } else {
        2
    }
}

/// The number shown for a scaled amount of `s` ticks: rounded to its
/// decimals, half to even, without trailing zeros.
pub open spec fn shown_number(s: nat) -> Seq<char> {
    let p = decimals_of(s);
    let r = half_even(s * pow10(p), two_pow(1074));
    if p == 0 {
        fixed_text(r, 0)
    } else {
        trimmed_decimal(fixed_text(r, p))
    }
}

/// The display text of an amount of `x` ticks of internal units, negative
/// or not: divided by 1200 and by its suffix's power of a thousand, each
/// quotient rounded to a double.
pub open spec fn display_text(negative: bool, x: nat) -> Seq<char> {
    let q = nearest_double(x, 1200);
    let k = tick_level(q);
    let s = if k == 0 {
        q
    } else {
        nearest_double(q, pow10(3 * k))
    };
    let n = shown_number(s);
    seq!['$'] + (if negative && n != seq!['0'] {
        seq!['-'] + n
    } else {
        n
    }) + scale_suffix(k)
}

/// `2^1074` is at least `10^7` and `2^2100` is below a thousandth of it
/// squared; the bounds the rounding steps need.
proof fn lemma_tick_bounds()
    ensures
        two_pow(1074) >= pow10(7),
        two_pow(1074) <= two_pow(2100),
        two_pow(2100) >= 1,
{
    reveal_with_fuel(two_pow, 25);
    reveal_with_fuel(pow10, 8);
    assert(two_pow(24) == 16777216);
    assert(pow10(7) == 10000000);
    lemma_two_pow_monotone(24, 1074);
    lemma_two_pow_monotone(1074, 2100);
    lemma_two_pow_positive(2100);
}

/// The quotient of an amount of at most `2^2100` ticks by `c >= 1000`
/// stays below `c × 2^2100`.
proof fn lemma_quotient_bound(m: nat, j: nat, c: nat)
    requires
        m <= two_pow(53),
        j <= 2047,
        c >= 1,
    ensures
        m * two_pow(j) < c * two_pow(2100) + 1,
        m * two_pow(j) <= two_pow(2100),
{
    lemma_two_pow_monotone(j, 2047);
    lemma_two_pow_adds(53, 2047);
    assert(m * two_pow(j) <= two_pow(53) * two_pow(2047)) by (nonlinear_arith)
        requires
            m <= two_pow(53),
            two_pow(j) <= two_pow(2047),
    ;
    lemma_two_pow_positive(2100);
    assert(two_pow(2100) <= c * two_pow(2100)) by (nonlinear_arith)
        requires
            c >= 1,
    ;
}

/// The level of `dval(qd)` ticks.
fn level_of_ticks(qd: &Vec<u8>, td: &Vec<u8>) -> (k: u64)
    requires
        is_digits(qd@),
        is_digits(td@),
        dval(td@) == two_pow(1074),
    ensures
        k == tick_level(dval(qd@)),
        k <= 4,
{
    proof {
        reveal_with_fuel(pow10, 13);
        let t = two_pow(1074);
        assert(pow10(12) == 1_000_000_000_000 && pow10(9) == 1_000_000_000);
        assert(pow10(6) == 1_000_000 && pow10(3) == 1_000);
        assert(t * 1_000_000_000_000 == pow10(12) * t) by (nonlinear_arith)
            requires pow10(12) == 1_000_000_000_000;
        assert(t * 1_000_000_000 == pow10(9) * t) by (nonlinear_arith)
            requires pow10(9) == 1_000_000_000;
        assert(t * 1_000_000 == pow10(6) * t) by (nonlinear_arith)
            requires pow10(6) == 1_000_000;
        assert(t * 1_000 == pow10(3) * t) by (nonlinear_arith)
            requires pow10(3) == 1_000;
    }
    if !digits_less(qd, &mul_small(td, 1_000_000_000_000)) {
        4
    } else if !digits_less(qd, &mul_small(td, 1_000_000_000)) {
        3
    } else if !digits_less(qd, &mul_small(td, 1_000_000)) {
        2
    } else if !digits_less(qd, &mul_small(td, 1_000)) {
        1
    } else {
        0
    }
}

/// Whether the fraction of `ms × 2^js` ticks, below one display unit, is
/// below `dval(d7)` ticks.
fn fraction_below(ms: u64, js: usize, d7: &Vec<u8>) -> (r: bool)
    requires
        ms <= two_pow(53),
        is_digits(d7@),
    ensures
        r == ((ms as nat * two_pow(js as nat)) % two_pow(1074) < dval(d7@)),
{
    let ghost t = two_pow(1074);
    let ghost sv: nat = ms as nat * two_pow(js as nat);
    proof {
        lemma_two_pow_53();
        lemma_two_pow_positive(1074);
    }
    if js >= 1074 {
        let zero: Vec<u8> = Vec::new();
        proof {
            let x: nat = ms as nat * two_pow((js - 1074) as nat);
            lemma_two_pow_adds((js - 1074) as nat, 1074);
            assert(sv == x * t) by (nonlinear_arith)
                requires
                    sv == ms as nat * two_pow(js as nat),
                    two_pow(js as nat) == two_pow((js - 1074) as nat) * t,
                    x == ms as nat * two_pow((js - 1074) as nat),
            ;
            lemma_scale_div_mod(x, 1, t);
            assert(x % 1 == 0);
            assert(1 * t == t);
            assert(dval(zero@) == 0) by {
                assert(zero@ =~= Seq::<u8>::empty());
            }
        }
        return digits_less(&zero, d7);
    }
    let e: u64 = (1074 - js) as u64;
    let fr: u64 = if e >= 60 {
        ms
    } else {
        ms % small_two_pow(e)
    };
    proof {
        lemma_two_pow_adds(e as nat, js as nat);
        lemma_two_pow_positive(e as nat);
        lemma_two_pow_positive(js as nat);
        lemma_scale_div_mod(ms as nat, two_pow(e as nat), two_pow(js as nat));
        if e >= 60 {
            lemma_two_pow_monotone(54, e as nat);
            assert(two_pow(54) == 2 * two_pow(53));
            vstd::arithmetic::div_mod::lemma_small_mod(ms as nat, two_pow(e as nat));
        }
        assert(t == two_pow(e as nat) * two_pow(js as nat));
        lemma_two_pow_large();
        if e < 60 {
            lemma_two_pow_monotone(e as nat, 60);
        }
    }
    digits_less(&ticks_digits(fr, js), d7)
}

/// `half_even(s × 10^p, 2^1074)` for `s = ms × 2^js` below `2^1074`, as
/// `fixed_text` with `p` decimals.
#[verifier::rlimit(40)]
fn rounded_chars(ms: u64, js: usize, p: u64) -> (r: Vec<char>)
    requires
        ms <= two_pow(53),
        js < 1074,
        p <= 2,
    ensures
        r@ == fixed_text(half_even(ms as nat * two_pow(js as nat) * pow10(p as nat), two_pow(1074)), p as nat),
{
    let ghost t = two_pow(1074);
    let ghost sv: nat = ms as nat * two_pow(js as nat);
    proof {
        lemma_two_pow_53();
        reveal_with_fuel(pow10, 3);
    }
    let e: u64 = (1074 - js) as u64;
    let tenp: u64 = if p == 0 {
        1
    } else if p == 1 {
        10
    } else {
        100
    };
    assert(tenp == pow10(p as nat));
    assert(ms as int * tenp as int <= 900719925474099200) by (nonlinear_arith)
        requires
            ms <= 9007199254740992,
            tenp <= 100,
    ;
    let v: u128 = ms as u128 * tenp as u128;
    proof {
        assert(v <= 9007199254740992 * 100) by (nonlinear_arith)
            requires
                v == ms * tenp,
                ms <= 9007199254740992,
                tenp <= 100,
        ;
        lemma_two_pow_adds(e as nat, js as nat);
        lemma_two_pow_positive(e as nat);
        lemma_two_pow_positive(js as nat);
        assert(t == two_pow(e as nat) * two_pow(js as nat));
        assert(sv * pow10(p as nat) == v * two_pow(js as nat)) by (nonlinear_arith)
            requires
                sv == ms as nat * two_pow(js as nat),
                v == ms * tenp,
                tenp == pow10(p as nat),
        ;
        lemma_scale_div_mod(v as nat, two_pow(e as nat), two_pow(js as nat));
    }
    let rr: u64 = if e >= 62 {
        proof {
            lemma_two_pow_monotone(61, e as nat);
            lemma_two_pow_large();
            let b = two_pow(e as nat);
            assert(0 * b == 0 && (0 + 1) * b == b && (2 * 0 + 1) * b == b) by (nonlinear_arith);
            lemma_half_even_of(v as nat, b, 0);
        }
        0
    } else {
        let den: u128 = small_two_pow(e) as u128;
        let q = v / den;
        let r = v % den;
        let up = 2 * r > den || (2 * r == den && q % 2 == 1);
        if up {
            (q + 1) as u64
        } else {
            q as u64
        }
    };
    fixed_chars(rr, p)
}

/// `shown_number` of `ms × 2^js` ticks, given the digits of `2^1074` and of
/// `small_fraction()`.
fn shown_chars(ms: u64, js: usize, td: &Vec<u8>, d7: &Vec<u8>) -> (r: Vec<char>)
    requires
        ms <= two_pow(53),
        js <= 2047,
        is_digits(td@),
        is_digits(d7@),
        dval(td@) == two_pow(1074),
        dval(d7@) == small_fraction(),
    ensures
        r@ == shown_number(ms as nat * two_pow(js as nat)),
{
    let ghost t = two_pow(1074);
    let ghost sv: nat = ms as nat * two_pow(js as nat);
    proof {
        lemma_two_pow_53();
        lemma_tick_bounds();
        lemma_pow10_positive(7);
        lemma_nearest_positive(two_pow(1074), pow10(7));
        assert(t * 100 == 100 * t);
        assert(t * 10 == 10 * t);
    }
    let sd = ticks_digits(ms, js);
    let big = !digits_less(&sd, &mul_small(td, 100));
    let ten = !digits_less(&sd, &mul_small(td, 10));
    let frac_small = fraction_below(ms, js, d7);
    let p: u64 = if big || frac_small {
        0
    } else if ten {
        1
    } else {
        2
    };
    assert(p == decimals_of(sv));
    if js >= 1074 {
        let rd = ticks_digits(ms, js - 1074);
        let c = strip_leading_zeros(&rd);
        let ghost x: nat = ms as nat * two_pow((js - 1074) as nat);
        proof {
            lemma_two_pow_positive(1074);
            lemma_two_pow_adds((js - 1074) as nat, 1074);
            assert(sv == x * t) by (nonlinear_arith)
                requires
                    sv == ms as nat * two_pow(js as nat),
                    two_pow(js as nat) == two_pow((js - 1074) as nat) * t,
                    x == ms as nat * two_pow((js - 1074) as nat),
            ;
            lemma_scale_div_mod(x, 1, t);
            assert(x / 1 == x && x % 1 == 0);
            assert(1 * t == t);
            assert(pow10(0) == 1);
            assert(sv * pow10(0) == sv);
            assert(half_even(sv * pow10(0), t) == x);
        }
        if c.len() == 0 {
            let mut z: Vec<char> = Vec::new();
            z.push('0');
            proof {
                assert(dval(c@) == 0);
                assert(z@ == decimal_text(0));
            }
            return z;
        }
        return digits_text(&c);
    }
    let f = rounded_chars(ms, js, p);
    if p == 0 {
        f
    } else {
        crate::currency::trim_decimal_chars(&f)
    }
}

/// The display text of `m0 × 2^j0` ticks of internal units.
fn display_of_ticks(negative: bool, m0: u64, j0: usize) -> (r: Vec<char>)
    requires
        m0 <= two_pow(53),
        j0 <= 2047,
    ensures
        r@ == display_text(negative, m0 as nat * two_pow(j0 as nat)),
{
    proof {
        lemma_two_pow_53();
        lemma_tick_bounds();
        reveal_with_fuel(pow10, 13);
    }
    let ghost x = m0 as nat * two_pow(j0 as nat);
    let td = ticks_digits(1, 1074);
    let xd = ticks_digits(m0, j0);
    let c1200 = digits_of(1200);
    proof {
        lemma_quotient_bound(m0 as nat, j0 as nat, 1200);
        assert(1 * two_pow(1074) == two_pow(1074));
        lemma_two_pow_positive(2100);
        assert(two_pow(2100) < 1200 * two_pow(2100));
    }
    let (mq, jq) = round_ratio(&xd, &c1200);
    let qd = ticks_digits(mq, jq);
    let ghost q = mq as nat * two_pow(jq as nat);
    let k = level_of_ticks(&qd, &td);
    let (ms, js) = if k == 0 {
        (mq, jq)
    } else {
        let unit: u64 = if k == 4 {
            1_000_000_000_000
        } else if k == 3 {
            1_000_000_000
        } else if k == 2 {
            1_000_000
        } else {
            1_000
        };
        assert(unit == pow10((3 * k) as nat));
        let ud = digits_of(unit);
        proof {
            lemma_quotient_bound(mq as nat, jq as nat, unit as nat);
            lemma_two_pow_positive(2100);
            assert(two_pow(2100) < unit * two_pow(2100)) by (nonlinear_arith)
                requires
                    unit >= 1000,
                    two_pow(2100) >= 1,
            ;
        }
        round_ratio(&qd, &ud)
    };
    proof {
        assert(pow10(7) == 10_000_000);
        assert(two_pow(1074) < 10_000_000 * two_pow(2100)) by (nonlinear_arith)
            requires
                two_pow(1074) <= two_pow(2100),
                two_pow(2100) >= 1,
        ;
    }
    let (m7, j7) = round_ratio(&td, &digits_of(10_000_000));
    let d7 = ticks_digits(m7, j7);
    let n = shown_chars(ms, js, &td, &d7);
    let mut out: Vec<char> = Vec::new();
    out.push('$');
    let is_zero = n.len() == 1 && n[0] == '0';
    assert(is_zero == (n@ == seq!['0'])) by {
        if n.len() == 1 && n[0] == '0' {
            assert(n@ =~= seq!['0']);
        }
    }
    if negative && !is_zero {
        out.push('-');
    }
    crate::text::extend_chars(&mut out, &n);
    if k == 4 {
        out.push('T');
    } else if k == 3 {
        out.push('B');
    } else if k == 2 {
        out.push('M');
    } else if k == 1 {
        out.push('K');
    }
    proof {
        let nn = if negative && !is_zero {
            seq!['-'] + n@
        } else {
            n@
        };
        assert(out@ =~= seq!['$'] + nn + scale_suffix(k as nat));
    }
    out
}

// ---------------------------------------------------------------------------
// From a number text to its display text
// ---------------------------------------------------------------------------
/// The numerator of `n × 10^s`.
pub open spec fn amount_num(n: nat, s: int) -> nat {
    if s >= 0 {
        n * pow10(s as nat)
    } else {
        n
    }
}

/// The denominator of `n × 10^s`.
pub open spec fn amount_den(s: int) -> nat {
    if s >= 0 {
        1
    } else {
        pow10((0 - s) as nat)
    }
}

/// Whether `n × 10^s` reads as a finite double.
pub open spec fn finite_amount(n: nat, s: int) -> bool {
    amount_num(n, s) < float_limit() * amount_den(s)
}

pub proof fn lemma_float_limit_positive()
    ensures
        float_limit() >= 1,
{
    lemma_two_pow_adds(970, 54);
    reveal_with_fuel(two_pow, 55);
    lemma_two_pow_positive(970);
    let p = two_pow(970);
    assert(p * 18014398509481984 - p >= 1) by (nonlinear_arith)
        requires
            p >= 1,
    ;
}

/// A number text whose value is zero.
proof fn lemma_zero_amount(s: int)
    ensures
        finite_amount(0, s),
        amount_num(0, s) == 0,
{
    assert(0 * pow10(s as nat) == 0) by (nonlinear_arith);
    lemma_float_limit_positive();
    lemma_pow10_positive((0 - s) as nat);
    let d = amount_den(s);
    assert(d >= 1);
    assert(float_limit() * d >= 1) by (nonlinear_arith)
        requires
            float_limit() >= 1,
            d >= 1,
    ;
    assert(amount_num(0, s) == 0);
}

/// `2^1075 < 10^540`: below `10^-540` nothing survives rounding.
proof fn lemma_tiny_bound()
    ensures
        2 * two_pow(1074) < pow10(540),
{
    lemma_four_bits(269);
    assert(4 * 269 == 1076nat);
    assert(2 * 269 == 538nat);
    assert(two_pow(1075) == 2 * two_pow(1074));
    assert(two_pow(1076) == 2 * two_pow(1075));
    lemma_pow10_monotone(538, 540);
}

/// `2^(4k) < 10^(2k)` for `k >= 1`.
proof fn lemma_four_bits(k: nat)
    requires
        k >= 1,
    ensures
        two_pow(4 * k) < pow10(2 * k),
    decreases k,
{
    reveal_with_fuel(two_pow, 5);
    reveal_with_fuel(pow10, 3);
    if k > 1 {
        lemma_four_bits((k - 1) as nat);
        lemma_two_pow_adds(4 * (k - 1) as nat, 4);
        lemma_pow10_adds(2 * (k - 1) as nat, 2);
        assert((4 * (k - 1) as nat + 4) == 4 * k);
        assert((2 * (k - 1) as nat + 2) == 2 * k);
        let a = two_pow(4 * (k - 1) as nat);
        let b = pow10(2 * (k - 1) as nat);
        assert(a * 16 < b * 100) by (nonlinear_arith)
            requires
                a < b,
        ;
    }
}

/// An amount of `n < 10^a` over `10^m` with `m >= a + 540` rounds to zero.
proof fn lemma_tiny_ticks(n: nat, a: nat, m: nat)
    requires
        n < pow10(a),
        a + 540 <= m,
    ensures
        nearest_double(n * two_pow(1074), pow10(m)) == 0,
        finite_amount(n, 0 - m),
{
    lemma_tiny_bound();
    lemma_pow10_adds(a, 540);
    lemma_pow10_monotone(a + 540, m);
    lemma_pow10_positive(a);
    let t = two_pow(1074);
    assert(2 * (n * t) < pow10(a) * pow10(540)) by (nonlinear_arith)
        requires
            n < pow10(a),
            2 * t < pow10(540),
            pow10(a) >= 1,
    ;
    lemma_pow10_positive(m);
    lemma_nearest_tiny(n * t, pow10(m));
    lemma_float_limit_positive();
    lemma_pow10_monotone(a, m);
    let p = pow10(m);
    let f = float_limit();
    assert(n < f * p) by (nonlinear_arith)
        requires
            n < p,
            f >= 1,
    ;
}

/// A finite amount is below `2^2098` ticks.
proof fn lemma_finite_ticks(num: nat, den: nat)
    requires
        den >= 1,
        num < float_limit() * den,
    ensures
        num * two_pow(1074) < den * two_pow(2100),
{
    lemma_two_pow_adds(1024, 1074);
    lemma_two_pow_monotone(2098, 2100);
    let t = two_pow(1074);
    lemma_two_pow_monotone(970, 1024);
    lemma_two_pow_positive(1074);
    assert(float_limit() <= two_pow(1024));
    assert(num * t < two_pow(1024) * den * t) by (nonlinear_arith)
        requires
            num < float_limit() * den,
            float_limit() <= two_pow(1024),
            t >= 1,
    ;
    assert(two_pow(1024) * den * t == den * two_pow(2098)) by (nonlinear_arith)
        requires
            two_pow(2098) == two_pow(1024) * t,
    ;
    assert(den * two_pow(2098) <= den * two_pow(2100)) by (nonlinear_arith)
        requires
            two_pow(2098) <= two_pow(2100),
    ;
}

/// The display text of `± dval(digits) × 10^(x - fraction)` internal units,
/// or `None` when that amount is not a finite double. A huge exponent is
/// given by its sign alone.
#[verifier::rlimit(60)]
pub(crate) fn amount_text(
    negative: bool,
    digits: &Vec<u8>,
    fraction: usize,
    exponent: i128,
    huge: bool,
    Ghost(x): Ghost<int>,
) -> (r: Option<Vec<char>>)
    requires
        is_digits(digits@),
        huge ==> exponent != 0 && (exponent > 0 ==> x >= pow10(36)) && (exponent < 0 ==> x <= 0
            - pow10(36)),
        !huge ==> exponent == x && 0 - pow10(36) < x < pow10(36),
    ensures
        match r {
            Some(t) => finite_amount(dval(digits@), x - fraction) && t@ == display_text(
                negative,
                nearest_double(
                    amount_num(dval(digits@), x - fraction) * two_pow(1074),
                    amount_den(x - fraction),
                ),
            ),
            None => !finite_amount(dval(digits@), x - fraction),
        },
{
    let d = strip_leading_zeros(digits);
    let ghost nv = dval(digits@);
    let ghost s: int = x - fraction;
    if d.len() == 0 {
        proof {
            lemma_zero_amount(s);
            lemma_pow10_positive((0 - s) as nat);
            lemma_nearest_tiny(0, amount_den(s));
            assert(amount_num(0, s) == 0);
            assert(0 * two_pow(0) == 0);
        }
        return Some(display_of_ticks(negative, 0, 0));
    }
    proof {
        lemma_dval_lower(d@);
        lemma_dval_bound(d@);
        lemma_pow10_positive((d@.len() - 1) as nat);
        crate::decimal::lemma_pow10_36();
        lemma_two_pow_53();
        assert(0 * two_pow(0) == 0);
    }
    let fd = float_limit_digits();
    let lenf = fd.len();
    proof {
        lemma_dval_bound(fd@);
    }
    if huge {
        if exponent > 0 {
            proof {
                assert(fraction <= usize::MAX && lenf <= usize::MAX);
                assert(s >= fd@.len());
                lemma_pow10_monotone(fd@.len(), s as nat);
                let p = pow10(s as nat);
                assert(nv * p >= p) by (nonlinear_arith)
                    requires
                        nv >= 1,
                ;
            }
            return None;
        }
        proof {
            lemma_tiny_ticks(nv, d@.len(), (0 - s) as nat);
        }
        return Some(display_of_ticks(negative, 0, 0));
    }
    let se: i128 = exponent - fraction as i128;
    assert(se == s);
    if se >= 0 {
        if se >= lenf as i128 || d.len() > lenf - (se as usize) {
            proof {
                let e = (d@.len() - 1 + s) as nat;
                assert(e >= fd@.len());
                lemma_pow10_monotone(fd@.len(), e);
                lemma_pow10_adds((d@.len() - 1) as nat, s as nat);
                let a = pow10((d@.len() - 1) as nat);
                let p = pow10(s as nat);
                assert(nv * p >= a * p) by (nonlinear_arith)
                    requires
                        nv >= a,
                ;
            }
            return None;
        }
        let mut w: Vec<u8> = digits_prefix(&d, d.len());
        assert(d@.take(d.len() as int) == d@);
        push_zeros(&mut w, se as usize);
        proof {
            lemma_dval_shift(d@, s as nat);
            assert(is_digits(w@));
        }
        if !digits_less(&w, &fd) {
            return None;
        }
        let a = times_two_pow(&w, 1074);
        let one = digits_of(1);
        proof {
            reveal_with_fuel(pow10, 1);
            lemma_finite_ticks(amount_num(nv, s), 1);
        }
        let (m0, j0) = round_ratio(&a, &one);
        return Some(display_of_ticks(negative, m0, j0));
    }
    let m: i128 = -se;
    proof {
        lemma_pow10_positive(m as nat);
    }
    if m < d.len() as i128 {
        let hi = digits_prefix(&d, d.len() - m as usize);
        proof {
            lemma_dval_split(d@, d@.len() - m);
            lemma_div_at_least(nv, pow10(m as nat), dval(fd@));
        }
        if !digits_less(&hi, &fd) {
            proof {
                let p = pow10(m as nat);
                let f = dval(fd@);
                assert(p * f == f * p) by (nonlinear_arith);
            }
            return None;
        }
        proof {
            let p = pow10(m as nat);
            let f = dval(fd@);
            assert(p * f == f * p) by (nonlinear_arith);
        }
    } else {
        proof {
            lemma_pow10_monotone(d@.len(), m as nat);
            lemma_float_limit_positive();
            let p = pow10(m as nat);
            let f = float_limit();
            assert(nv < f * p) by (nonlinear_arith)
                requires
                    nv < p,
                    f >= 1,
            ;
        }
    }
    if m >= d.len() as i128 + 540 {
        proof {
            lemma_tiny_ticks(nv, d@.len(), m as nat);
        }
        return Some(display_of_ticks(negative, 0, 0));
    }
    let mut b: Vec<u8> = Vec::new();
    b.push(1);
    let mut k: i128 = 0;
    while k < m
        invariant
            0 <= k <= m,
            b@ == seq![1u8] + zeros(k as nat),
        decreases m - k,
    {
        b.push(0);
        k += 1;
        assert(zeros(k as nat) == zeros((k - 1) as nat).push(0));
    }
    let a = times_two_pow(&d, 1074);
    proof {
        lemma_dval_shift(seq![1u8], m as nat);
        crate::digits::lemma_dval_single(1);
        assert(is_digits(b@));
        lemma_finite_ticks(nv, pow10(m as nat));
    }
    let (m0, j0) = round_ratio(&a, &b);
    Some(display_of_ticks(negative, m0, j0))
}

} // verus!
