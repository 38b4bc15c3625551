//! Natural numbers of any size as decimal digit vectors, most significant
//! digit first, with the few operations that exact money arithmetic needs.

use vstd::prelude::*;

verus! {

broadcast use vstd::seq_lib::group_seq_properties;

pub open spec fn pow10(n: nat) -> nat
    decreases n,
{
    if n == 0 {
        1
    } else {
        10 * pow10((n - 1) as nat)
    }
}

/// Every element is a decimal digit.
pub open spec fn is_digits(s: Seq<u8>) -> bool {
    forall|i: int| 0 <= i < s.len() ==> #[trigger] s[i] < 10
}

/// The value of a digit sequence.
pub open spec fn dval(s: Seq<u8>) -> nat
    decreases s.len(),
{
    if s.len() == 0 {
        0
    } else {
        dval(s.drop_last()) * 10 + s.last() as nat
    }
}

/// `n` zero digits.
pub open spec fn zeros(n: nat) -> Seq<u8> {
    Seq::new(n, |i: int| 0u8)
}

/// The digits have no leading zero (zero itself is the empty sequence).
pub open spec fn canonical(s: Seq<u8>) -> bool {
    is_digits(s) && (s.len() == 0 || s[0] != 0)
}

pub proof fn lemma_pow10_positive(n: nat)
    ensures
        pow10(n) >= 1,
    decreases n,
{
    if n > 0 {
        lemma_pow10_positive((n - 1) as nat);
    }
}

pub proof fn lemma_pow10_adds(a: nat, b: nat)
    ensures
        pow10(a + b) == pow10(a) * pow10(b),
    decreases b,
{
    if b == 0 {
        assert(pow10(0) == 1);
        assert(a + b == a);
    } else {
        lemma_pow10_adds(a, (b - 1) as nat);
        assert((a + b - 1) as nat == a + (b - 1) as nat);
        assert(pow10(a + b) == 10 * pow10((a + b - 1) as nat));
        assert(pow10(a) * pow10(b) == pow10(a) * (10 * pow10((b - 1) as nat)));
        assert(pow10(a) * (10 * pow10((b - 1) as nat)) == 10 * (pow10(a) * pow10(
            (b - 1) as nat,
        ))) by (nonlinear_arith);
    }
}

pub proof fn lemma_pow10_monotone(a: nat, b: nat)
    requires
        a <= b,
    ensures
        pow10(a) <= pow10(b),
    decreases b,
{
    if a < b {
        lemma_pow10_monotone(a, (b - 1) as nat);
        lemma_pow10_positive((b - 1) as nat);
    }
}

pub proof fn lemma_dval_push(s: Seq<u8>, d: u8)
    ensures
        dval(s.push(d)) == dval(s) * 10 + d as nat,
{
    assert(s.push(d).drop_last() == s);
}

/// A number of `n` digits is below `10^n`.
pub proof fn lemma_dval_bound(s: Seq<u8>)
    requires
        is_digits(s),
    ensures
        dval(s) < pow10(s.len()),
    decreases s.len(),
{
    if s.len() > 0 {
        lemma_dval_bound(s.drop_last());
        assert(s.last() < 10);
        assert(dval(s.drop_last()) + 1 <= pow10(s.drop_last().len()));
        assert(dval(s.drop_last()) * 10 + s.last() < pow10(s.drop_last().len()) * 10) by (
        nonlinear_arith)
            requires
                dval(s.drop_last()) + 1 <= pow10(s.drop_last().len()),
                s.last() < 10,
        ;
    }
}

pub proof fn lemma_dval_concat(a: Seq<u8>, b: Seq<u8>)
    ensures
        dval(a + b) == dval(a) * pow10(b.len()) + dval(b),
    decreases b.len(),
{
    if b.len() == 0 {
        assert(a + b == a);
        assert(pow10(0) == 1);
        assert(dval(b) == 0);
    } else {
        lemma_dval_concat(a, b.drop_last());
        assert((a + b).drop_last() == a + b.drop_last());
        assert((a + b).last() == b.last());
        let x = dval(a);
        let p = pow10(b.drop_last().len());
        let y = dval(b.drop_last());
        assert(pow10(b.len()) == 10 * p);
        assert(dval(a + b) == (x * p + y) * 10 + b.last());
        assert(dval(b) == y * 10 + b.last());
        assert((x * p + y) * 10 + b.last() == x * (10 * p) + (y * 10 + b.last())) by (
        nonlinear_arith);
    }
}

pub proof fn lemma_dval_single(d: u8)
    ensures
        dval(seq![d]) == d as nat,
{
    assert(seq![d].drop_last() =~= Seq::<u8>::empty());
    assert(dval(Seq::<u8>::empty()) == 0);
}

pub proof fn lemma_dval_zeros(n: nat)
    ensures
        dval(zeros(n)) == 0,
    decreases n,
{
    if n > 0 {
        lemma_dval_zeros((n - 1) as nat);
        assert(zeros(n).drop_last() == zeros((n - 1) as nat));
    }
}

/// Appending `n` zeros multiplies by `10^n`.
pub proof fn lemma_dval_shift(a: Seq<u8>, n: nat)
    ensures
        dval(a + zeros(n)) == dval(a) * pow10(n),
{
    lemma_dval_concat(a, zeros(n));
    lemma_dval_zeros(n);
}

/// Leading zeros do not change the value.
pub proof fn lemma_dval_leading_zeros(n: nat, b: Seq<u8>)
    ensures
        dval(zeros(n) + b) == dval(b),
{
    lemma_dval_concat(zeros(n), b);
    lemma_dval_zeros(n);
}

/// Splitting a number at a digit: the high part and the low part.
pub proof fn lemma_dval_split(s: Seq<u8>, i: int)
    requires
        is_digits(s),
        0 <= i <= s.len(),
    ensures
        dval(s) == dval(s.take(i)) * pow10((s.len() - i) as nat) + dval(s.skip(i)),
        dval(s.take(i)) == dval(s) / pow10((s.len() - i) as nat),
        dval(s.skip(i)) == dval(s) % pow10((s.len() - i) as nat),
{
    assert(s == s.take(i) + s.skip(i));
    lemma_dval_concat(s.take(i), s.skip(i));
    assert(is_digits(s.skip(i)));
    lemma_dval_bound(s.skip(i));
    lemma_pow10_positive((s.len() - i) as nat);
    let p = pow10((s.len() - i) as nat);
    let hi = dval(s.take(i));
    let lo = dval(s.skip(i));
    vstd::arithmetic::div_mod::lemma_fundamental_div_mod_converse(
        dval(s) as int,
        p as int,
        hi as int,
        lo as int,
    );
}

/// A canonical number of `n > 0` digits is at least `10^(n-1)`.
pub proof fn lemma_dval_lower(s: Seq<u8>)
    requires
        canonical(s),
        s.len() > 0,
    ensures
        dval(s) >= pow10((s.len() - 1) as nat),
{
    lemma_dval_split(s, 1);
    assert(s.take(1) == seq![s[0]]);
    lemma_dval_single(s[0]);
    lemma_pow10_positive((s.len() - 1) as nat);
    assert(s[0] as nat * pow10((s.len() - 1) as nat) >= pow10((s.len() - 1) as nat)) by (
    nonlinear_arith)
        requires
            s[0] >= 1,
    ;
}

/// The three outcomes of comparing two numbers.
#[derive(Clone, Copy, PartialEq, Eq, Structural)]
pub enum Order3 {
    Below,
    Same,
    Above,
}

pub open spec fn order_of(x: nat, y: nat) -> Order3 {
    if x < y {
        Order3::Below
    } else if x == y {
        Order3::Same
    } else {
        Order3::Above
    }
}

/// Compares two digit vectors of the same length.
pub fn compare_same_len(a: &Vec<u8>, b: &Vec<u8>) -> (r: Order3)
    requires
        a.len() == b.len(),
        is_digits(a@),
        is_digits(b@),
    ensures
        r == order_of(dval(a@), dval(b@)),
{
    let mut i: usize = 0;
    while i < a.len() && a[i] == b[i]
        invariant
            a.len() == b.len(),
            i <= a.len(),
            forall|k: int| 0 <= k < i ==> a@[k] == b@[k],
        decreases a.len() - i,
    {
        i += 1;
    }
    proof {
        assert(a@.take(i as int) == b@.take(i as int));
        lemma_dval_split(a@, i as int);
        lemma_dval_split(b@, i as int);
    }
    if i == a.len() {
        assert(a@ == b@);
        return Order3::Same;
    }
    proof {
        let n = (a.len() - i - 1) as nat;
        let sa = a@.skip(i as int);
        let sb = b@.skip(i as int);
        lemma_dval_split(sa, 1);
        lemma_dval_split(sb, 1);
        assert(sa.take(1) == seq![a@[i as int]]);
        assert(sb.take(1) == seq![b@[i as int]]);
        lemma_dval_single(a@[i as int]);
        lemma_dval_single(b@[i as int]);
        assert(is_digits(sa.skip(1)) && is_digits(sb.skip(1)));
        lemma_dval_bound(sa.skip(1));
        lemma_dval_bound(sb.skip(1));
        let p = pow10(n);
        let x = a@[i as int] as nat;
        let y = b@[i as int] as nat;
        let xr = dval(sa.skip(1));
        let yr = dval(sb.skip(1));
        assert(x < y ==> x * p + xr < y * p + yr) by (nonlinear_arith)
            requires
                xr < p,
                yr >= 0,
        ;
        assert(y < x ==> y * p + yr < x * p + xr) by (nonlinear_arith)
            requires
                yr < p,
                xr >= 0,
        ;
        let h = dval(a@.take(i as int));
        let q = pow10((a.len() - i) as nat);
        assert(dval(sa) < dval(sb) ==> h * q + dval(sa) < h * q + dval(sb));
        assert(dval(sb) < dval(sa) ==> h * q + dval(sb) < h * q + dval(sa));
    }
    if a[i] < b[i] {
        Order3::Below
    } else {
        Order3::Above
    }
}

/// Removes leading zeros.
pub fn strip_leading_zeros(v: &Vec<u8>) -> (r: Vec<u8>)
    requires
        is_digits(v@),
    ensures
        canonical(r@),
        dval(r@) == dval(v@),
        r@.len() <= v@.len(),
{
    let mut i: usize = 0;
    while i < v.len() && v[i] == 0
        invariant
            i <= v.len(),
            forall|k: int| 0 <= k < i ==> v@[k] == 0,
        decreases v.len() - i,
    {
        i += 1;
    }
    let mut r: Vec<u8> = Vec::new();
    let mut j = i;
    while j < v.len()
        invariant
            i <= j <= v.len(),
            r@ == v@.subrange(i as int, j as int),
        decreases v.len() - j,
    {
        r.push(v[j]);
        j += 1;
        assert(v@.subrange(i as int, j as int) == v@.subrange(i as int, j - 1).push(v@[j - 1]));
    }
    proof {
        assert(v@ == zeros(i as nat) + r@);
        lemma_dval_leading_zeros(i as nat, r@);
    }
    r
}

/// Appends `n` zero digits.
pub fn push_zeros(v: &mut Vec<u8>, n: usize)
    ensures
        final(v)@ == old(v)@ + zeros(n as nat),
{
    let mut k: usize = 0;
    while k < n
        invariant
            k <= n,
            v@ == old(v)@ + zeros(k as nat),
        decreases n - k,
    {
        v.push(0);
        k += 1;
        assert(zeros(k as nat) == zeros((k - 1) as nat).push(0));
    }
}

/// Multiplication by a small number.
pub fn mul_small(v: &Vec<u8>, m: u64) -> (r: Vec<u8>)
    requires
        is_digits(v@),
        m < 0x1000_0000_0000_0000,
    ensures
        is_digits(r@),
        dval(r@) == dval(v@) * (m as nat),
{
    // Digits of the product, least significant first.
    let mut low: Vec<u8> = Vec::new();
    let mut carry: u128 = 0;
    let mut j = v.len();
    assert(v@.skip(j as int) =~= Seq::<u8>::empty());
    assert(low@.reverse() =~= Seq::<u8>::empty());
    assert(dval(Seq::<u8>::empty()) == 0);
    while j > 0
        invariant
            m < 0x1000_0000_0000_0000,
            is_digits(v@),
            j <= v.len(),
            low@.len() == v.len() - j,
            is_digits(low@),
            carry <= m as u128,
            dval(v@.skip(j as int)) * (m as nat) == carry * pow10(low@.len()) + dval(
                low@.reverse(),
            ),
        decreases j,
    {
        j -= 1;
        let d = v[j];
        assert(d < 10);
        assert((d as u128) * (m as u128) <= 9 * (m as u128)) by (nonlinear_arith)
            requires
                d < 10,
        ;
        let cur: u128 = (d as u128) * (m as u128) + carry;
        let digit = (cur % 10) as u8;
        let new_carry = cur / 10;
        assert(new_carry <= m as u128) by (nonlinear_arith)
            requires
                cur == (d as u128) * (m as u128) + carry,
                d < 10,
                carry <= m as u128,
                new_carry == cur / 10,
        ;
        proof {
            let k = low@.len();
            let rest = v@.skip(j as int + 1);
            assert(v@.skip(j as int) == seq![d] + rest);
            lemma_dval_concat(seq![d], rest);
            lemma_dval_single(d);
            assert(rest.len() == k);
            let new_low = low@.push(digit);
            assert(new_low.reverse() == seq![digit] + low@.reverse());
            lemma_dval_concat(seq![digit], low@.reverse());
            lemma_dval_single(digit);
            let p = pow10(k);
            let lr = dval(low@.reverse());
            assert(cur == new_carry * 10 + digit as u128);
            assert((d * p + dval(rest)) * m == new_carry * (10 * p) + (digit * p + lr)) by (
            nonlinear_arith)
                requires
                    dval(rest) * m == carry * p + lr,
                    cur == (d as u128) * (m as u128) + carry,
                    cur == new_carry * 10 + digit as u128,
            ;
            assert(pow10(k + 1) == 10 * p);
        }
        low.push(digit);
        carry = new_carry;
    }
    // Then the carry, which is at most `m`, in decimal.
    while carry > 0
        invariant
            is_digits(v@),
            is_digits(low@),
            dval(v@) * (m as nat) == carry * pow10(low@.len()) + dval(low@.reverse()),
        decreases carry,
    {
        let digit = (carry % 10) as u8;
        let new_carry = carry / 10;
        proof {
            let k = low@.len();
            let new_low = low@.push(digit);
            assert(new_low.reverse() == seq![digit] + low@.reverse());
            lemma_dval_concat(seq![digit], low@.reverse());
            lemma_dval_single(digit);
            let p = pow10(k);
            assert(carry * p == new_carry * (10 * p) + digit * p) by (nonlinear_arith)
                requires
                    carry == new_carry * 10 + digit as u128,
            ;
            assert(pow10(k + 1) == 10 * p);
        }
        low.push(digit);
        carry = new_carry;
    }
    assert(v@.skip(0) == v@);
    let mut r: Vec<u8> = Vec::new();
    let mut i = low.len();
    while i > 0
        invariant
            i <= low.len(),
            is_digits(low@),
            r@ == low@.reverse().take((low.len() - i) as int),
        decreases i,
    {
        i -= 1;
        r.push(low[i]);
        assert(low@.reverse().take((low.len() - i) as int) == low@.reverse().take(
            (low.len() - i - 1) as int,
        ).push(low@[i as int]));
    }
    assert(low@.reverse().take(low.len() as int) == low@.reverse());
    r
}

} // verus!
