//! The text of a floating-point number, as `str::parse::<f64>` reads it:
//! `[+-]? (inf | infinity | nan | digits [. digits] [(e|E) [+-]? digits])`,
//! with the words in any case and at least one mantissa digit.

use vstd::prelude::*;
use crate::digits::{canonical, dval, is_digits, strip_leading_zeros};
use crate::text::{all_digits, digits_value, is_digit};

verus! {

broadcast use vstd::seq_lib::group_seq_properties;

/// What a number text stands for.
pub enum FloatText {
    /// Not a number text at all.
    Invalid,
    /// `inf`, `infinity` or `nan`, in any case and with any sign.
    NotFinite,
    /// `± digits × 10^(exponent - fraction digits)`.
    Number { negative: bool, digits: Seq<char>, fraction: nat, exponent: int },
}

pub open spec fn ascii_lower(c: char) -> char {
    if 'A' <= c <= 'Z' {
        ((c as u32) + 32) as char
    } else {
        c
    }
}

pub open spec fn lower_text(s: Seq<char>) -> Seq<char> {
    s.map_values(|c: char| ascii_lower(c))
}

/// `inf`, `infinity` or `nan` in any case.
pub open spec fn is_special_word(s: Seq<char>) -> bool {
    let l = lower_text(s);
    l == "inf"@ || l == "infinity"@ || l == "nan"@
}

/// Index of the first `e` or `E` at or after `i`, or the length.
pub open spec fn exp_from(s: Seq<char>, i: int) -> int
    decreases s.len() - i,
{
    if i < 0 || i >= s.len() {
        s.len() as int
    } else if s[i] == 'e' || s[i] == 'E' {
        i
    } else {
        exp_from(s, i + 1)
    }
}

/// The value of an exponent text: an optional sign, then at least one digit.
pub open spec fn exponent_value(s: Seq<char>) -> Option<int> {
    let negative = s.len() > 0 && s[0] == '-';
    let body = if s.len() > 0 && (s[0] == '-' || s[0] == '+') {
        s.drop_first()
    } else {
        s
    };
    if body.len() > 0 && all_digits(body) {
        Some(if negative {
            0 - digits_value(body)
        } else {
            digits_value(body) as int
        })
    } else {
        None
    }
}

/// The text after an optional leading sign.
pub open spec fn float_body(s: Seq<char>) -> Seq<char> {
    if s.len() > 0 && (s[0] == '-' || s[0] == '+') {
        s.drop_first()
    } else {
        s
    }
}

/// The exponent of a number text without its sign: 0 when there is none.
pub open spec fn float_exponent(body: Seq<char>) -> Option<int> {
    let e = exp_from(body, 0);
    if e < body.len() {
        exponent_value(body.skip(e + 1))
    } else {
        Some(0int)
    }
}

/// The mantissa of a number text without its sign.
pub open spec fn float_mantissa(body: Seq<char>) -> Seq<char> {
    body.take(exp_from(body, 0))
}

/// The digits before the point.
pub open spec fn mantissa_whole(m: Seq<char>) -> Seq<char> {
    m.take(crate::text::find_char(m, '.'))
}

/// The digits after the point.
pub open spec fn mantissa_fraction(m: Seq<char>) -> Seq<char> {
    let d = crate::text::find_char(m, '.');
    if d < m.len() {
        m.skip(d + 1)
    } else {
        Seq::<char>::empty()
    }
}

/// Reads the text of a floating-point number.
pub open spec fn float_text(s: Seq<char>) -> FloatText {
    let body = float_body(s);
    let whole = mantissa_whole(float_mantissa(body));
    let fraction = mantissa_fraction(float_mantissa(body));
    let exponent = float_exponent(body);
    if is_special_word(body) {
        FloatText::NotFinite
    } else if all_digits(whole) && all_digits(fraction) && whole.len() + fraction.len() > 0
        && exponent is Some {
        FloatText::Number {
            negative: s.len() > 0 && s[0] == '-',
            digits: whole + fraction,
            fraction: fraction.len(),
            exponent: exponent->0,
        }
    } else {
        FloatText::Invalid
    }
}

/// The result of reading number text, as executable values. The exponent is
/// kept when it has at most 36 digits; a longer one is reported by its sign.
pub enum ParsedFloat {
    Invalid,
    NotFinite,
    Number { negative: bool, digits: Vec<u8>, fraction: usize, exponent: i128, huge_exponent: bool },
}

/// Digit characters as digit values.
pub open spec fn digit_values(s: Seq<char>) -> Seq<u8> {
    s.map_values(|c: char| (c as u32 - '0' as u32) as u8)
}

pub proof fn lemma_digit_values(s: Seq<char>)
    requires
        all_digits(s),
    ensures
        is_digits(digit_values(s)),
        dval(digit_values(s)) == digits_value(s),
    decreases s.len(),
{
    if s.len() > 0 {
        lemma_digit_values(s.drop_last());
        assert(digit_values(s).drop_last() == digit_values(s.drop_last()));
        assert(is_digit(s[s.len() - 1]));
    }
}

fn lower_char(c: char) -> (r: char)
    ensures
        r == ascii_lower(c),
{
    if 'A' <= c && c <= 'Z' {
        ((c as u32) + 32) as u8 as char
    } else {
        c
    }
}

/// Whether `v[lo..]` is `inf`, `infinity` or `nan` in any case.
fn special_word_at(v: &Vec<char>, lo: usize) -> (r: bool)
    requires
        lo <= v.len(),
    ensures
        r == is_special_word(v@.skip(lo as int)),
{
    let mut l: Vec<char> = Vec::new();
    let mut i = lo;
    while i < v.len()
        invariant
            lo <= i <= v.len(),
            l@ == lower_text(v@.skip(lo as int).take(i - lo)),
        decreases v.len() - i,
    {
        l.push(lower_char(v[i]));
        i += 1;
        assert(lower_text(v@.skip(lo as int).take(i - lo)) =~= lower_text(
            v@.skip(lo as int).take(i - lo - 1),
        ).push(ascii_lower(v@[i - 1])));
    }
    assert(v@.skip(lo as int).take(v.len() - lo) == v@.skip(lo as int));
    crate::text::chars_eq_str(&l, "inf") || crate::text::chars_eq_str(&l, "infinity")
        || crate::text::chars_eq_str(&l, "nan")
}

/// Whether `v[lo..hi]` are all digits; their values if so.
fn digits_between(v: &Vec<char>, lo: usize, hi: usize) -> (r: Option<Vec<u8>>)
    requires
        lo <= hi <= v.len(),
    ensures
        match r {
            Some(d) => all_digits(v@.subrange(lo as int, hi as int)) && d@ == digit_values(
                v@.subrange(lo as int, hi as int),
            ),
            None => !all_digits(v@.subrange(lo as int, hi as int)),
        },
{
    let mut d: Vec<u8> = Vec::new();
    let mut i = lo;
    while i < hi
        invariant
            lo <= i <= hi <= v.len(),
            all_digits(v@.subrange(lo as int, i as int)),
            d@ == digit_values(v@.subrange(lo as int, i as int)),
        decreases hi - i,
    {
        let c = v[i];
        if !crate::text::ascii_digit(c) {
            assert(v@.subrange(lo as int, hi as int)[i - lo] == c);
            return None;
        }
        d.push((c as u32 - '0' as u32) as u8);
        i += 1;
        assert(v@.subrange(lo as int, i as int) == v@.subrange(lo as int, i - 1).push(c));
        assert(digit_values(v@.subrange(lo as int, i as int)) =~= digit_values(
            v@.subrange(lo as int, i - 1),
        ).push((c as u32 - '0' as u32) as u8));
    }
    Some(d)
}

/// The spec reading and the executable one agree.
pub open spec fn parsed_matches(p: ParsedFloat, f: FloatText) -> bool {
    match (p, f) {
        (ParsedFloat::Invalid, FloatText::Invalid) => true,
        (ParsedFloat::NotFinite, FloatText::NotFinite) => true,
        (
            ParsedFloat::Number { negative, digits, fraction, exponent, huge_exponent },
            FloatText::Number { negative: n2, digits: d2, fraction: f2, exponent: e2 },
        ) => {
            &&& negative == n2
            &&& digits@ == digit_values(d2)
            &&& all_digits(d2)
            &&& fraction == f2
            &&& if huge_exponent {
                (exponent > 0 ==> e2 >= crate::digits::pow10(36)) && (exponent < 0 ==> e2 <= 0
                    - crate::digits::pow10(36))
                    && exponent != 0
            } else {
                exponent == e2 && 0 - crate::digits::pow10(36) < e2 < crate::digits::pow10(36)
            }
        },
        _ => false,
    }
}

pub proof fn lemma_pow10_36()
    ensures
        crate::digits::pow10(36) == 1_000_000_000_000_000_000_000_000_000_000_000_000,
{
    reveal_with_fuel(crate::digits::pow10, 37);
}

/// Reads an exponent text `v[lo..]`.
fn parse_exponent(v: &Vec<char>, lo: usize) -> (r: Option<(i128, bool)>)
    requires
        lo <= v.len(),
    ensures
        match (r, exponent_value(v@.skip(lo as int))) {
            (None, None) => true,
            (Some((e, huge)), Some(x)) => if huge {
                (e > 0 ==> x >= crate::digits::pow10(36)) && (e < 0 ==> x <= 0
                    - crate::digits::pow10(36)) && e != 0
            } else {
                e == x && 0 - crate::digits::pow10(36) < x < crate::digits::pow10(36)
            },
            _ => false,
        },
{
    let ghost s = v@.skip(lo as int);
    let negative = lo < v.len() && v[lo] == '-';
    let start = if lo < v.len() && (v[lo] == '-' || v[lo] == '+') {
        lo + 1
    } else {
        lo
    };
    assert(v@.subrange(start as int, v.len() as int) == if s.len() > 0 && (s[0] == '-' || s[0]
        == '+') {
        s.drop_first()
    } else {
        s
    });
    if start == v.len() {
        return None;
    }
    match digits_between(v, start, v.len()) {
        None => None,
        Some(d) => {
            let ghost body = v@.subrange(start as int, v.len() as int);
            proof {
                lemma_digit_values(body);
            }
            let stripped = strip_leading_zeros(&d);
            if stripped.len() > 36 {
                proof {
                    crate::digits::lemma_dval_lower(stripped@);
                    crate::digits::lemma_pow10_monotone(36, (stripped@.len() - 1) as nat);
                }
                Some((if negative { -1 } else { 1 }, true))
            } else {
                let mut e: i128 = 0;
                let mut i: usize = 0;
                proof {
                    lemma_pow10_36();
                    crate::digits::lemma_dval_bound(stripped@);
                    crate::digits::lemma_pow10_monotone(stripped@.len(), 36);
                    assert(stripped@.take(0) =~= Seq::<u8>::empty());
                    assert(dval(Seq::<u8>::empty()) == 0);
                }
                while i < stripped.len()
                    invariant
                        i <= stripped.len(),
                        stripped.len() <= 36,
                        canonical(stripped@),
                        e == dval(stripped@.take(i as int)),
                        dval(stripped@) < 1_000_000_000_000_000_000_000_000_000_000_000_000,
                    decreases stripped.len() - i,
                {
                    proof {
                        crate::digits::lemma_dval_push(stripped@.take(i as int), stripped@[i as int]);
                        assert(stripped@.take(i + 1) == stripped@.take(i as int).push(
                            stripped@[i as int],
                        ));
                        crate::digits::lemma_dval_split(stripped@, i + 1);
                        crate::digits::lemma_pow10_positive((stripped@.len() - i - 1) as nat);
                        assert(dval(stripped@.take(i + 1)) <= dval(stripped@)) by (nonlinear_arith)
                            requires
                                dval(stripped@) == dval(stripped@.take(i + 1)) * crate::digits::pow10(
                                    (stripped@.len() - i - 1) as nat,
                                ) + dval(stripped@.skip(i + 1)),
                                crate::digits::pow10((stripped@.len() - i - 1) as nat) >= 1,
                        ;
                    }
                    e = e * 10 + stripped[i] as i128;
                    i += 1;
                }
                assert(stripped@.take(stripped.len() as int) == stripped@);
                Some((if negative { -e } else { e }, false))
            }
        },
    }
}

/// Index of the first exponent mark at or after `lo`, or the length.
fn exp_index(v: &Vec<char>, lo: usize) -> (e: usize)
    requires
        lo <= v.len(),
    ensures
        lo <= e <= v.len(),
        e - lo == exp_from(v@.skip(lo as int), 0),
{
    let ghost body = v@.skip(lo as int);
    let mut e = lo;
    while e < v.len() && v[e] != 'e' && v[e] != 'E'
        invariant
            lo <= e <= v.len(),
            body == v@.skip(lo as int),
            exp_from(body, 0) == exp_from(body, e - lo),
        decreases v.len() - e,
    {
        assert(body[e - lo] == v@[e as int]);
        e += 1;
    }
    if e < v.len() {
        assert(body[e - lo] == v@[e as int]);
    }
    e
}

/// Index of the first `.` in `v[lo..e]`, or `e`.
fn dot_index(v: &Vec<char>, lo: usize, e: usize) -> (d: usize)
    requires
        lo <= e <= v.len(),
    ensures
        lo <= d <= e,
        d - lo == crate::text::find_char(v@.subrange(lo as int, e as int), '.'),
{
    let ghost m = v@.subrange(lo as int, e as int);
    let mut d = lo;
    while d < e && v[d] != '.'
        invariant
            lo <= d <= e <= v.len(),
            m == v@.subrange(lo as int, e as int),
            crate::text::find_from(m, '.', 0) == crate::text::find_from(m, '.', d - lo),
        decreases e - d,
    {
        assert(m[d - lo] == v@[d as int]);
        d += 1;
    }
    if d < e {
        assert(m[d - lo] == v@[d as int]);
    }
    d
}

/// The digit values of `v[lo..d]` followed by those of `v[f..e]`, when both
/// are all digits.
fn mantissa_digits(v: &Vec<char>, lo: usize, d: usize, f: usize, e: usize) -> (r: Option<Vec<u8>>)
    requires
        lo <= d <= f <= e <= v.len(),
    ensures
        match r {
            Some(x) => all_digits(v@.subrange(lo as int, d as int)) && all_digits(
                v@.subrange(f as int, e as int),
            ) && x@ == digit_values(
                v@.subrange(lo as int, d as int) + v@.subrange(f as int, e as int),
            ),
            None => !(all_digits(v@.subrange(lo as int, d as int)) && all_digits(
                v@.subrange(f as int, e as int),
            )),
        },
{
    let whole = digits_between(v, lo, d);
    let fraction = digits_between(v, f, e);
    match (whole, fraction) {
        (Some(w), Some(x)) => {
            let mut digits = w;
            let ghost wv = digits@;
            let mut k: usize = 0;
            while k < x.len()
                invariant
                    k <= x.len(),
                    digits@ == wv + x@.take(k as int),
                decreases x.len() - k,
            {
                digits.push(x[k]);
                k += 1;
                assert(x@.take(k as int) == x@.take(k - 1).push(x@[k - 1]));
            }
            assert(x@.take(x.len() as int) == x@);
            proof {
                let a = v@.subrange(lo as int, d as int);
                let b = v@.subrange(f as int, e as int);
                assert(digit_values(a + b) =~= digit_values(a) + digit_values(b));
            }
            Some(digits)
        },
        _ => None,
    }
}

/// Reads the text of a floating-point number.
/// The whole and fractional digits of a mantissa found by index.
proof fn lemma_mantissa_parts(s: Seq<char>, lo: int, d: int, f: int, e: int)
    requires
        0 <= lo <= d <= e <= s.len(),
        e - lo == exp_from(s.skip(lo), 0),
        d - lo == crate::text::find_char(s.subrange(lo, e), '.'),
        f == if d < e {
            d + 1
        } else {
            e
        },
    ensures
        mantissa_whole(float_mantissa(s.skip(lo))) == s.subrange(lo, d),
        mantissa_fraction(float_mantissa(s.skip(lo))) == s.subrange(f, e),
{
    let m = float_mantissa(s.skip(lo));
    assert(m == s.subrange(lo, e));
    assert(m.take(d - lo) == s.subrange(lo, d));
    if d < e {
        assert(m.skip(d - lo + 1) == s.subrange(f, e));
    } else {
        assert(s.subrange(f, e) =~= Seq::<char>::empty());
    }
}

/// Reads the text of a floating-point number.
pub fn parse_float_text(v: &Vec<char>) -> (r: ParsedFloat)
    ensures
        parsed_matches(r, float_text(v@)),
{
    let negative = v.len() > 0 && v[0] == '-';
    let lo: usize = if v.len() > 0 && (v[0] == '-' || v[0] == '+') {
        1
    } else {
        0
    };
    let ghost body = float_body(v@);
    assert(body == v@.skip(lo as int));
    if special_word_at(v, lo) {
        return ParsedFloat::NotFinite;
    }
    assert(!is_special_word(body));
    let e = exp_index(v, lo);
    let exponent = if e < v.len() {
        assert(body.skip(e - lo + 1) == v@.skip(e + 1));
        parse_exponent(v, e + 1)
    } else {
        proof {
            crate::digits::lemma_pow10_positive(36);
        }
        Some((0, false))
    };
    let ghost fx = float_exponent(body);
    assert(fx is Some <==> exponent is Some);
    let d = dot_index(v, lo, e);
    let f = if d < e {
        d + 1
    } else {
        e
    };
    let ghost a = v@.subrange(lo as int, d as int);
    let ghost b = v@.subrange(f as int, e as int);
    proof {
        lemma_mantissa_parts(v@, lo as int, d as int, f as int, e as int);
    }
    let digits = mantissa_digits(v, lo, d, f, e);
    proof {
        if digits is Some {
            assert(all_digits(a + b)) by {
                assert forall|i: int| 0 <= i < (a + b).len() implies is_digit(
                    #[trigger] (a + b)[i],
                ) by {
                    if i < a.len() {
                        assert((a + b)[i] == a[i]);
                    } else {
                        assert((a + b)[i] == b[i - a.len()]);
                    }
                }
            }
        }
    }
    match (digits, exponent) {
        (Some(x), Some((ex, huge))) => {
            assert(x@.len() == a.len() + b.len());
            if x.len() == 0 {
                assert(float_text(v@) is Invalid);
                return ParsedFloat::Invalid;
            }
            assert(float_text(v@) == FloatText::Number {
                negative,
                digits: a + b,
                fraction: b.len(),
                exponent: fx->0,
            });
            ParsedFloat::Number {
                negative,
                digits: x,
                fraction: e - f,
                exponent: ex,
                huge_exponent: huge,
            }
        },
        _ => {
            assert(float_text(v@) is Invalid);
            ParsedFloat::Invalid
        },
    }
}

} // verus!
