//! Money as the game shows it: internal units are 1/1200 of a display unit,
//! and display amounts are compact (`$83.3`, `$400K`, `$1B`).

use vstd::prelude::*;
use crate::amount::{amount_den, amount_num, amount_text, display_text, finite_amount, two_pow};
use crate::double::nearest_double;
use crate::decimal::{float_text, parse_float_text, FloatText, ParsedFloat};
use crate::text::{all_digits, is_digit, digits_value, back_white_space, is_white_space, skip_white_space, trim_start_index,
    chars_of, find_char, is_blank, join_pieces, push_chars, slice_chars, split_chars,
    split_pieces, string_of, trim_chars, trimmed, views,
};

verus! {

broadcast use vstd::seq_lib::group_seq_properties;

// ---------------------------------------------------------------------------
// Trailing zeros
// ---------------------------------------------------------------------------
/// End of `s[..j]` once trailing copies of `c` are removed.
pub open spec fn back_skip(s: Seq<char>, c: char, j: int) -> int
    decreases j,
{
    if j <= 0 {
        0
    } else if s[j - 1] == c {
        back_skip(s, c, j - 1)
    } else {
        j
    }
}

/// `trim_decimal_zeros`: a text with a decimal point loses its trailing
/// zeros, then a trailing point.
pub open spec fn trimmed_decimal(s: Seq<char>) -> Seq<char> {
    if !s.contains('.') {
        s
    } else {
        let t = s.take(back_skip(s, '0', s.len() as int));
        if t.len() > 0 && t.last() == '.' {
            t.drop_last()
        } else {
            t
        }
    }
}

pub proof fn lemma_back_skip(s: Seq<char>, c: char, j: int)
    requires
        0 <= j <= s.len(),
    ensures
        0 <= back_skip(s, c, j) <= j,
    decreases j,
{
    if j > 0 && s[j - 1] == c {
        lemma_back_skip(s, c, j - 1);
    }
}

fn contains_char(v: &Vec<char>, c: char) -> (r: bool)
    ensures
        r == v@.contains(c),
{
    let i = crate::text::find_char_in(v, c);
    proof {
        crate::text::lemma_find_char(v@, c);
    }
    i < v.len()
}

/// Removes trailing zeros after a decimal point, then a trailing point.
pub fn trim_decimal_chars(v: &Vec<char>) -> (r: Vec<char>)
    ensures
        r@ == trimmed_decimal(v@),
{
    if !contains_char(v, '.') {
        return slice_chars(v, 0, v.len());
    }
    let mut j = v.len();
    while j > 0 && v[j - 1] == '0'
        invariant
            j <= v.len(),
            back_skip(v@, '0', v.len() as int) == back_skip(v@, '0', j as int),
        decreases j,
    {
        j -= 1;
    }
    if j > 0 && v[j - 1] == '.' {
        j -= 1;
    }
    slice_chars(v, 0, j)
}

/// Removes trailing zeros after a decimal point, then a trailing point.
pub fn trim_decimal_zeros(value: String) -> (r: String)
    ensures
        r@ == trimmed_decimal(value@),
{
    let v = chars_of(value.as_str());
    let t = trim_decimal_chars(&v);
    string_of(&t)
}

// ---------------------------------------------------------------------------
// Separators
// ---------------------------------------------------------------------------
/// How many times `c` occurs in `s`.
pub open spec fn count_char(s: Seq<char>, c: char) -> nat
    decreases s.len(),
{
    if s.len() == 0 {
        0
    } else {
        count_char(s.drop_last(), c) + if s.last() == c {
            1nat
        } else {
            0nat
        }
    }
}

/// Index of the last `c` in `s`, or -1.
pub open spec fn last_index(s: Seq<char>, c: char) -> int
    decreases s.len(),
{
    if s.len() == 0 {
        -1
    } else if s.last() == c {
        s.len() - 1
    } else {
        last_index(s.drop_last(), c)
    }
}

/// The number of UTF-8 bytes of a text (`str::len`).
pub open spec fn byte_len(s: Seq<char>) -> nat {
    vstd::utf8::encode_utf8(s).len()
}

/// Whether every piece but the first is exactly three bytes long.
pub open spec fn groups_of_three(ps: Seq<Seq<char>>) -> bool {
    forall|i: int| 1 <= i < ps.len() ==> byte_len(#[trigger] ps[i]) == 3
}

/// The pieces written one after the other (`concat`).
pub open spec fn concat_pieces(ps: Seq<Seq<char>>) -> Seq<char>
    decreases ps.len(),
{
    if ps.len() == 0 {
        Seq::<char>::empty()
    } else {
        concat_pieces(ps.drop_last()) + ps.last()
    }
}

/// `normalize_single_separator`: `sep` either groups thousands (it is
/// dropped) or, once and not followed by exactly three digits of grouping,
/// marks the decimals (it becomes `.`).
pub open spec fn single_separator_normalized(raw: Seq<char>, sep: char) -> Result<Seq<char>, ()> {
    let ps = split_pieces(raw, sep);
    if exists|i: int| 0 <= i < ps.len() && (#[trigger] ps[i]).len() == 0 {
        Err(())
    } else if ps.len() == 2 {
        if byte_len(ps[1]) == 3 && byte_len(ps[0]) <= 3 {
            Ok(ps[0] + ps[1])
        } else {
            Ok(ps[0].push('.') + ps[1])
        }
    } else if groups_of_three(ps) {
        Ok(concat_pieces(ps))
    } else {
        Err(())
    }
}

/// With both `.` and `,` present, the later one marks the decimals.
pub open spec fn mixed_separators_normalized(raw: Seq<char>) -> Seq<char>
    decreases raw.len(),
{
    if raw.len() == 0 {
        Seq::<char>::empty()
    } else {
        let decimal = if last_index(raw, '.') > last_index(raw, ',') {
            '.'
        } else {
            ','
        };
        mixed_prefix(raw, decimal, raw.len() as int)
    }
}

/// The first `n` characters of `raw` with `decimal` turned into `.` and the
/// other separator dropped.
pub open spec fn mixed_prefix(raw: Seq<char>, decimal: char, n: int) -> Seq<char>
    decreases n,
{
    if n <= 0 {
        Seq::<char>::empty()
    } else {
        let c = raw[n - 1];
        let rest = mixed_prefix(raw, decimal, n - 1);
        if c == decimal {
            rest.push('.')
        } else if c != '.' && c != ',' {
            rest.push(c)
        } else {
            rest
        }
    }
}

/// `normalize_separators`: turns grouped or locale-style number text into
/// text with at most one `.` as the decimal point.
pub open spec fn separators_normalized(input: Seq<char>) -> Result<Seq<char>, ()> {
    let raw = trimmed(input);
    let dots = count_char(raw, '.');
    let commas = count_char(raw, ',');
    if raw.len() == 0 {
        Err(())
    } else if dots > 0 && commas > 0 {
        Ok(mixed_separators_normalized(raw))
    } else if commas > 0 {
        single_separator_normalized(raw, ',')
    } else if dots > 1 {
        single_separator_normalized(raw, '.')
    } else {
        Ok(raw)
    }
}

// ---------------------------------------------------------------------------
// How separators are read
// ---------------------------------------------------------------------------
proof fn lemma_count_zero(s: Seq<char>, c: char)
    ensures
        (count_char(s, c) == 0) == !s.contains(c),
    decreases s.len(),
{
    if s.len() > 0 {
        lemma_count_zero(s.drop_last(), c);
        if s.drop_last().contains(c) {
            let i = choose|i: int| 0 <= i < s.drop_last().len() && s.drop_last()[i] == c;
            assert(s[i] == c);
        }
        if s.contains(c) && s.last() != c {
            let i = choose|i: int| 0 <= i < s.len() && s[i] == c;
            assert(s.drop_last()[i] == c);
        }
    } else {
        assert(!s.contains(c));
    }
}

proof fn lemma_digits_exclude(s: Seq<char>, c: char)
    requires
        all_digits(s),
        !is_digit(c),
    ensures
        !s.contains(c),
        count_char(s, c) == 0,
{
    if s.contains(c) {
        let i = choose|i: int| 0 <= i < s.len() && s[i] == c;
        assert(is_digit(s[i]));
    }
    lemma_count_zero(s, c);
}

proof fn lemma_digits_bytes(s: Seq<char>)
    requires
        all_digits(s),
    ensures
        byte_len(s) == s.len(),
{
    assert(vstd::utf8::is_ascii_chars(s)) by {
        assert forall|i: int| 0 <= i < s.len() implies '\0' <= #[trigger] s[i] <= '\u{7f}' by {
            assert(is_digit(s[i]));
        }
    }
    vstd::utf8::is_ascii_chars_encode_utf8(s);
}

proof fn lemma_digits_untrimmed(s: Seq<char>)
    requires
        s.len() > 0,
        is_digit(s[0]),
        is_digit(s[s.len() - 1]),
    ensures
        trimmed(s) == s,
{
    crate::text::lemma_trimmed_unchanged(s);
}

/// Digits alone need no normalizing, and a single dot among digits is kept
/// as the decimal point.
pub proof fn lemma_plain_number(a: Seq<char>, b: Seq<char>)
    requires
        a.len() > 0,
        b.len() > 0,
        all_digits(a),
        all_digits(b),
    ensures
        separators_normalized(a) == Ok::<Seq<char>, ()>(a),
        separators_normalized(a.push('.') + b) == Ok::<Seq<char>, ()>(a.push('.') + b),
{
    lemma_digits_untrimmed(a);
    lemma_digits_exclude(a, '.');
    lemma_digits_exclude(a, ',');
    let t = a.push('.') + b;
    assert(t[0] == a[0]);
    assert(t[t.len() - 1] == b[b.len() - 1]);
    lemma_digits_untrimmed(t);
    lemma_digits_exclude(b, '.');
    lemma_digits_exclude(b, ',');
    lemma_count_concat(a.push('.'), b, '.');
    lemma_count_concat(a.push('.'), b, ',');
    assert(a.push('.').drop_last() == a);
}

proof fn lemma_count_concat(a: Seq<char>, b: Seq<char>, c: char)
    ensures
        count_char(a + b, c) == count_char(a, c) + count_char(b, c),
    decreases b.len(),
{
    if b.len() == 0 {
        assert(a + b =~= a);
    } else {
        lemma_count_concat(a, b.drop_last(), c);
        assert((a + b).drop_last() =~= a + b.drop_last());
    }
}

proof fn lemma_comma_pair_parts(a: Seq<char>, b: Seq<char>)
    requires
        a.len() > 0,
        b.len() > 0,
        all_digits(a),
        all_digits(b),
    ensures
        trimmed(a.push(',') + b) == a.push(',') + b,
        count_char(a.push(',') + b, '.') == 0,
        count_char(a.push(',') + b, ',') > 0,
        split_pieces(a.push(',') + b, ',') == seq![a, b],
        byte_len(a) == a.len(),
        byte_len(b) == b.len(),
{
    let t = a.push(',') + b;
    assert(t[0] == a[0]);
    assert(t[t.len() - 1] == b[b.len() - 1]);
    lemma_digits_untrimmed(t);
    lemma_digits_exclude(a, '.');
    lemma_digits_exclude(a, ',');
    lemma_digits_exclude(b, '.');
    lemma_digits_exclude(b, ',');
    lemma_count_concat(a.push(','), b, '.');
    lemma_count_concat(a.push(','), b, ',');
    assert(a.push(',').drop_last() == a);
    let ps = seq![a, b];
    assert(ps.drop_last() =~= seq![a]);
    assert(join_pieces(seq![a], ',') == a);
    assert(ps.last() == b);
    assert(join_pieces(ps, ',') == join_pieces(ps.drop_last(), ',').push(',') + ps.last());
    assert(join_pieces(ps, ',') =~= t);
    crate::text::lemma_split_join(ps, ',');
    lemma_digits_bytes(a);
    lemma_digits_bytes(b);
}

/// One comma between digits: with one to three digits before it and
/// exactly three after, it groups thousands and is dropped (`1,200` is
/// `1200`); otherwise it marks the decimals (`83,3` is `83.3`).
pub proof fn lemma_comma_pair(a: Seq<char>, b: Seq<char>)
    requires
        a.len() > 0,
        b.len() > 0,
        all_digits(a),
        all_digits(b),
    ensures
        separators_normalized(a.push(',') + b) == if b.len() == 3 && a.len() <= 3 {
            Ok::<Seq<char>, ()>(a + b)
        } else {
            Ok::<Seq<char>, ()>(a.push('.') + b)
        },
{
    lemma_comma_pair_parts(a, b);
    let t = a.push(',') + b;
    let ps = seq![a, b];
    assert(ps[0] == a && ps[1] == b);
    assert(!(exists|i: int| 0 <= i < ps.len() && (#[trigger] ps[i]).len() == 0));
    assert(single_separator_normalized(t, ',') == if b.len() == 3 && a.len() <= 3 {
        Ok::<Seq<char>, ()>(a + b)
    } else {
        Ok::<Seq<char>, ()>(a.push('.') + b)
    });
}

proof fn lemma_last_index_digits(x: Seq<char>, y: Seq<char>, c: char)
    requires
        all_digits(y),
        !is_digit(c),
    ensures
        last_index(x + y, c) == last_index(x, c),
    decreases y.len(),
{
    if y.len() > 0 {
        assert((x + y).drop_last() =~= x + y.drop_last());
        assert((x + y).last() == y.last());
        assert(is_digit(y[y.len() - 1]));
        lemma_last_index_digits(x, y.drop_last(), c);
    } else {
        assert(x + y =~= x);
    }
}

proof fn lemma_mixed_digits(raw: Seq<char>, d: char, i: int, k: int)
    requires
        !is_digit(d),
        0 <= i,
        0 <= k,
        i + k <= raw.len(),
        forall|j: int| i <= j < i + k ==> is_digit(#[trigger] raw[j]),
    ensures
        mixed_prefix(raw, d, i + k) == mixed_prefix(raw, d, i) + raw.subrange(i, i + k),
    decreases k,
{
    if k > 0 {
        lemma_mixed_digits(raw, d, i, k - 1);
        let c = raw[i + k - 1];
        assert(is_digit(c));
        assert(c != d && c != '.' && c != ',');
        assert(mixed_prefix(raw, d, i + k) == mixed_prefix(raw, d, i + k - 1).push(c));
        assert(raw.subrange(i, i + k) =~= raw.subrange(i, i + k - 1).push(c));
    } else {
        assert(raw.subrange(i, i) =~= Seq::<char>::empty());
    }
}

/// Both separators among digits: the later one is the decimal point and
/// the earlier one groups thousands (`1.234,5` and `1,234.5` are both
/// `1234.5`).
pub proof fn lemma_mixed_separators(a: Seq<char>, b: Seq<char>, c: Seq<char>)
    requires
        a.len() > 0,
        b.len() > 0,
        c.len() > 0,
        all_digits(a),
        all_digits(b),
        all_digits(c),
    ensures
        separators_normalized(a.push('.') + b.push(',') + c) == Ok::<Seq<char>, ()>(a + b.push('.') + c),
        separators_normalized(a.push(',') + b.push('.') + c) == Ok::<Seq<char>, ()>(a + b.push('.') + c),
{
    lemma_mixed_one(a, b, c, '.', ',');
    lemma_mixed_one(a, b, c, ',', '.');
}

proof fn lemma_mixed_counts(a: Seq<char>, b: Seq<char>, c: Seq<char>, first: char, second: char)
    requires
        a.len() > 0,
        b.len() > 0,
        c.len() > 0,
        all_digits(a),
        all_digits(b),
        all_digits(c),
        (first == '.' && second == ',') || (first == ',' && second == '.'),
    ensures
        separators_normalized(a.push(first) + b.push(second) + c) == Ok::<Seq<char>, ()>(
            mixed_prefix(a.push(first) + b.push(second) + c, second, (a.len() + b.len() + c.len() + 2) as int),
        ),
{
    let x = a.push(first);
    let y = x + b.push(second);
    let raw = y + c;
    let la = a.len() as int;
    let lb = b.len() as int;
    assert(raw[0] == a[0]);
    assert(raw[raw.len() - 1] == c[c.len() - 1]);
    lemma_digits_untrimmed(raw);
    lemma_digits_exclude(a, first);
    lemma_digits_exclude(a, second);
    lemma_digits_exclude(b, first);
    lemma_digits_exclude(b, second);
    lemma_digits_exclude(c, first);
    lemma_digits_exclude(c, second);
    assert(x == a + seq![first]);
    assert(b.push(second) == b + seq![second]);
    lemma_count_concat(a, seq![first], first);
    lemma_count_concat(a, seq![first], second);
    lemma_count_concat(b, seq![second], first);
    lemma_count_concat(b, seq![second], second);
    lemma_count_concat(x, b.push(second), first);
    lemma_count_concat(x, b.push(second), second);
    lemma_count_concat(y, c, first);
    lemma_count_concat(y, c, second);
    assert(seq![first].drop_last() =~= Seq::<char>::empty());
    assert(seq![second].drop_last() =~= Seq::<char>::empty());
    assert(count_char(seq![first], first) == 1);
    assert(count_char(seq![second], second) == 1);
    lemma_last_index_digits(y, c, first);
    lemma_last_index_digits(y, c, second);
    assert(y.last() == second);
    assert(y.drop_last() =~= x + b);
    lemma_last_index_digits(x, b, first);
    assert(x.last() == first);
    assert(last_index(y, second) == la + lb + 1);
    assert(last_index(x, first) == la);
}

proof fn lemma_mixed_text(a: Seq<char>, b: Seq<char>, c: Seq<char>, first: char, second: char)
    requires
        all_digits(a),
        all_digits(b),
        all_digits(c),
        !is_digit(first),
        !is_digit(second),
        first != second,
        first == '.' || first == ',',
    ensures
        mixed_prefix(a.push(first) + b.push(second) + c, second, (a.len() + b.len() + c.len() + 2) as int)
            == a + b.push('.') + c,
{
    let raw = a.push(first) + b.push(second) + c;
    let la = a.len() as int;
    let lb = b.len() as int;
    assert(raw.len() == la + lb + c.len() + 2);
    assert forall|j: int| 0 <= j < la implies is_digit(#[trigger] raw[j]) by {
        assert(raw[j] == a[j]);
    }
    assert forall|j: int| la + 1 <= j < la + 1 + lb implies is_digit(#[trigger] raw[j]) by {
        assert(raw[j] == b[j - la - 1]);
    }
    assert forall|j: int| la + lb + 2 <= j < raw.len() implies is_digit(#[trigger] raw[j]) by {
        assert(raw[j] == c[j - la - lb - 2]);
    }
    lemma_mixed_digits(raw, second, 0, la);
    lemma_mixed_digits(raw, second, la + 1, lb);
    lemma_mixed_digits(raw, second, la + lb + 2, c.len() as int);
    assert(raw[la] == first);
    assert(raw[la + lb + 1] == second);
    assert(mixed_prefix(raw, second, 0) =~= Seq::<char>::empty());
    assert(raw.subrange(0, la) =~= a);
    assert(raw.subrange(la + 1, la + 1 + lb) =~= b);
    assert(raw.subrange(la + lb + 2, raw.len() as int) =~= c);
    assert(mixed_prefix(raw, second, la + 1) == mixed_prefix(raw, second, la));
    assert(mixed_prefix(raw, second, la + lb + 2) == mixed_prefix(raw, second, la + lb + 1).push('.'));
    assert(mixed_prefix(raw, second, raw.len() as int) =~= a + b.push('.') + c);
}

proof fn lemma_mixed_one(a: Seq<char>, b: Seq<char>, c: Seq<char>, first: char, second: char)
    requires
        a.len() > 0,
        b.len() > 0,
        c.len() > 0,
        all_digits(a),
        all_digits(b),
        all_digits(c),
        (first == '.' && second == ',') || (first == ',' && second == '.'),
    ensures
        separators_normalized(a.push(first) + b.push(second) + c) == Ok::<Seq<char>, ()>(a + b.push('.') + c),
{
    lemma_mixed_counts(a, b, c, first, second);
    lemma_mixed_text(a, b, c, first, second);
}

/// Thousands groups: digits, then any number of commas each followed by
/// exactly three digits, read as the digits run together
/// (`1,200,000` is `1200000`).
pub proof fn lemma_comma_groups(ps: Seq<Seq<char>>)
    requires
        ps.len() >= 3,
        forall|i: int| 0 <= i < ps.len() ==> (#[trigger] ps[i]).len() > 0 && all_digits(ps[i]),
        forall|i: int| 1 <= i < ps.len() ==> (#[trigger] ps[i]).len() == 3,
    ensures
        separators_normalized(join_pieces(ps, ',')) == Ok::<Seq<char>, ()>(concat_pieces(ps)),
{
    let t = join_pieces(ps, ',');
    assert forall|i: int| 0 <= i < ps.len() implies !(#[trigger] ps[i]).contains(',') && !ps[i].contains('.') by {
        lemma_digits_exclude(ps[i], ',');
        lemma_digits_exclude(ps[i], '.');
    }
    crate::text::lemma_split_join(ps, ',');
    crate::text::lemma_join_contains(ps, ',', '.');
    lemma_count_zero(t, '.');
    lemma_count_zero(t, ',');
    lemma_join_ends(ps, ',');
    lemma_digits_untrimmed(t);
    assert(t.contains(',')) by {
        lemma_join_has_sep(ps, ',');
    }
    assert forall|i: int| 1 <= i < ps.len() implies byte_len(#[trigger] ps[i]) == 3 by {
        lemma_digits_bytes(ps[i]);
    }
    assert(!(exists|i: int| 0 <= i < ps.len() && (#[trigger] ps[i]).len() == 0));
}

proof fn lemma_join_ends(ps: Seq<Seq<char>>, sep: char)
    requires
        ps.len() >= 1,
        forall|i: int| 0 <= i < ps.len() ==> (#[trigger] ps[i]).len() > 0 && all_digits(ps[i]),
    ensures
        join_pieces(ps, sep).len() > 0,
        is_digit(join_pieces(ps, sep)[0]),
        is_digit(join_pieces(ps, sep)[join_pieces(ps, sep).len() - 1]),
    decreases ps.len(),
{
    if ps.len() == 1 {
        assert(is_digit(ps[0][0]));
    } else {
        let front = ps.drop_last();
        assert forall|i: int| 0 <= i < front.len() implies (#[trigger] front[i]).len() > 0 && all_digits(front[i]) by {
            assert(front[i] == ps[i]);
        }
        lemma_join_ends(front, sep);
        let last = ps[ps.len() - 1];
        assert(is_digit(last[last.len() - 1]));
        assert(join_pieces(ps, sep) == join_pieces(front, sep).push(sep) + ps.last());
    }
}

proof fn lemma_join_has_sep(ps: Seq<Seq<char>>, sep: char)
    requires
        ps.len() >= 2,
    ensures
        join_pieces(ps, sep).contains(sep),
{
    let j = join_pieces(ps.drop_last(), sep);
    assert(join_pieces(ps, sep) == j.push(sep) + ps.last());
    assert((j.push(sep) + ps.last())[j.len() as int] == sep);
}

fn count_and_last(v: &Vec<char>, c: char) -> (r: (usize, usize))
    ensures
        r.0 == count_char(v@, c),
        r.1 == last_index(v@, c) + 1,
{
    let mut count: usize = 0;
    let mut last: usize = 0;
    let mut i: usize = 0;
    while i < v.len()
        invariant
            i <= v.len(),
            count == count_char(v@.take(i as int), c),
            count <= i,
            last == last_index(v@.take(i as int), c) + 1,
        decreases v.len() - i,
    {
        assert(v@.take(i as int + 1).drop_last() == v@.take(i as int));
        if v[i] == c {
            count += 1;
            last = i + 1;
        }
        i += 1;
    }
    assert(v@.take(v.len() as int) == v@);
    (count, last)
}

/// The number of UTF-8 bytes of one character.
pub open spec fn char_width(c: char) -> nat {
    let u = c as u32;
    if u <= 0x7F {
        1
    } else if u <= 0x7FF {
        2
    } else if u <= 0xFFFF {
        3
    } else {
        4
    }
}

pub proof fn lemma_byte_len_first(s: Seq<char>)
    requires
        s.len() > 0,
    ensures
        byte_len(s) == char_width(s[0]) + byte_len(s.drop_first()),
{
    vstd::utf8::char_is_scalar(s[0]);
}

/// The number of UTF-8 bytes of a character vector, or 4 when there are more.
fn byte_len_upto4(v: &Vec<char>) -> (n: usize)
    ensures
        n == if byte_len(v@) < 4 {
            byte_len(v@)
        } else {
            4
        },
{
    let mut total: usize = 0;
    let mut j = v.len();
    assert(v@.skip(j as int).len() == 0);
    while j > 0
        invariant
            j <= v.len(),
            total == if byte_len(v@.skip(j as int)) < 4 {
                byte_len(v@.skip(j as int))
            } else {
                4
            },
        decreases j,
    {
        j -= 1;
        let u = v[j] as u32;
        let w: usize = if u <= 0x7F {
            1
        } else if u <= 0x7FF {
            2
        } else if u <= 0xFFFF {
            3
        } else {
            4
        };
        proof {
            lemma_byte_len_first(v@.skip(j as int));
            assert(v@.skip(j as int).drop_first() == v@.skip(j as int + 1));
        }
        total = if total + w < 4 {
            total + w
        } else {
            4
        };
    }
    assert(v@.skip(0) == v@);
    total
}

/// Drops `sep` or turns it into the decimal point, as `separators_normalized` says.
#[verifier::rlimit(40)]
pub fn normalize_single_separator(raw: &str, separator: char) -> (r: Result<String, ()>)
    ensures
        match (r, single_separator_normalized(raw@, separator)) {
            (Ok(s), Ok(t)) => s@ == t,
            (Err(_), Err(_)) => true,
            _ => false,
        },
{
    let v = chars_of(raw);
    let pieces = split_chars(&v, separator);
    let ghost ps = split_pieces(v@, separator);
    let mut k: usize = 0;
    while k < pieces.len()
        invariant
            k <= pieces.len(),
            views(pieces@) == ps,
            ps == split_pieces(raw@, separator),
            forall|i: int| 0 <= i < k ==> (#[trigger] ps[i]).len() != 0,
        decreases pieces.len() - k,
    {
        assert(ps[k as int] == pieces@[k as int]@);
        if pieces[k].len() == 0 {
            assert(ps[k as int].len() == 0);
            return Err(());
        }
        k += 1;
    }
    if pieces.len() == 2 {
        assert(ps[0] == pieces@[0]@ && ps[1] == pieces@[1]@);
        let mut out: Vec<char> = Vec::new();
        crate::text::extend_chars(&mut out, &pieces[0]);
        if byte_len_upto4(&pieces[1]) == 3 && byte_len_upto4(&pieces[0]) <= 3 {
            crate::text::extend_chars(&mut out, &pieces[1]);
        } else {
            out.push('.');
            crate::text::extend_chars(&mut out, &pieces[1]);
        }
        return Ok(string_of(&out));
    }
    let mut out: Vec<char> = Vec::new();
    if pieces.len() > 0 {
        crate::text::extend_chars(&mut out, &pieces[0]);
        assert(ps.take(1).drop_last() =~= Seq::<Seq<char>>::empty());
        assert(concat_pieces(ps.take(1)) == concat_pieces(ps.take(1).drop_last()) + ps[0]);
    }
    let mut i: usize = 1;
    while i < pieces.len()
        invariant
            1 <= i,
            i <= pieces.len() || pieces.len() == 0,
            views(pieces@) == ps,
            ps == split_pieces(raw@, separator),
            ps.len() != 2,
            forall|j: int| 0 <= j < ps.len() ==> (#[trigger] ps[j]).len() != 0,
            forall|j: int| 1 <= j < i && j < ps.len() ==> byte_len(#[trigger] ps[j]) == 3,
            pieces.len() > 0 ==> out@ == concat_pieces(ps.take(i as int)),
        decreases pieces.len() - i,
    {
        assert(ps[i as int] == pieces@[i as int]@);
        if byte_len_upto4(&pieces[i]) != 3 {
            assert(byte_len(ps[i as int]) != 3);
            assert(!groups_of_three(ps));
            return Err(());
        }
        crate::text::extend_chars(&mut out, &pieces[i]);
        i += 1;
        assert(ps.take(i as int).drop_last() == ps.take(i as int - 1));
    }
    proof {
        crate::text::lemma_split_pieces_nonempty(v@, separator);
        assert(ps.take(ps.len() as int) == ps);
        assert(ps.take(1).drop_last().len() == 0);
    }
    Ok(string_of(&out))
}

/// Turns grouped or locale-style number text into text with at most one `.`.
pub fn normalize_separators(raw: &str) -> (r: Result<String, ()>)
    ensures
        match (r, separators_normalized(raw@)) {
            (Ok(s), Ok(t)) => s@ == t,
            (Err(_), Err(_)) => true,
            _ => false,
        },
{
    let input = chars_of(raw);
    let v = trim_chars(&input);
    if v.len() == 0 {
        return Err(());
    }
    let (dot_count, last_dot) = count_and_last(&v, '.');
    let (comma_count, last_comma) = count_and_last(&v, ',');
    if dot_count > 0 && comma_count > 0 {
        let decimal_separator = if last_dot > last_comma {
            '.'
        } else {
            ','
        };
        let mut normalized: Vec<char> = Vec::new();
        let mut i: usize = 0;
        while i < v.len()
            invariant
                i <= v.len(),
                normalized@ == mixed_prefix(v@, decimal_separator, i as int),
            decreases v.len() - i,
        {
            let ch = v[i];
            if ch == decimal_separator {
                normalized.push('.');
            } else if ch != '.' && ch != ',' {
                normalized.push(ch);
            }
            i += 1;
        }
        return Ok(string_of(&normalized));
    }
    let t = string_of(&v);
    if comma_count > 0 {
        return normalize_single_separator(t.as_str(), ',');
    }
    if dot_count > 1 {
        return normalize_single_separator(t.as_str(), '.');
    }
    Ok(t)
}

// ---------------------------------------------------------------------------
// Display amounts typed by the user
// ---------------------------------------------------------------------------
/// A character that a typed amount may carry and that is dropped: a
/// currency symbol, a space or an underscore.
pub open spec fn is_amount_mark(c: char) -> bool {
    c == '$' || c == '\u{20ac}' || c == '\u{a3}' || c == '\u{a5}' || c == '\u{20a9}' || c == ' ' || c == '_'
}

/// A typed amount without its currency symbols, spaces and underscores.
pub open spec fn without_amount_marks(s: Seq<char>) -> Seq<char>
    decreases s.len(),
{
    if s.len() == 0 {
        Seq::empty()
    } else if is_amount_mark(s.last()) {
        without_amount_marks(s.drop_last())
    } else {
        without_amount_marks(s.drop_last()).push(s.last())
    }
}

/// The power of 1000 that a suffix letter stands for, either case.
pub open spec fn amount_scale(c: char) -> Option<u8> {
    if c == 'K' || c == 'k' {
        Some(1)
    } else if c == 'M' || c == 'm' {
        Some(2)
    } else if c == 'B' || c == 'b' {
        Some(3)
    } else if c == 'T' || c == 't' {
        Some(4)
    } else {
        None
    }
}

/// What a typed amount stands for before it is read as a number: the
/// normalized number text and the power of 1000 of its suffix. Blank input
/// is refused, and so is a number whose separators cannot be read.
pub open spec fn display_amount_parts_of(input: Seq<char>) -> Result<(Seq<char>, u8), ()> {
    let t = trimmed(input);
    if t.len() == 0 {
        Err(())
    } else {
        let body = without_amount_marks(t);
        let (number, level) = if body.len() > 0 && amount_scale(body.last()) is Some {
            (body.drop_last(), amount_scale(body.last())->0)
        } else {
            (body, 0u8)
        };
        match separators_normalized(number) {
            Err(_) => Err(()),
            Ok(n) => Ok((n, level)),
        }
    }
}

/// Appending a non-white character leaves where leading white space ends.
proof fn lemma_skip_push(s: Seq<char>, c: char, i: int)
    requires
        0 <= i <= s.len(),
        !is_white_space(c),
    ensures
        skip_white_space(s.push(c), i) == skip_white_space(s, i),
    decreases s.len() - i,
{
    if i < s.len() {
        assert(s.push(c)[i] == s[i]);
        if is_white_space(s[i]) {
            lemma_skip_push(s, c, i + 1);
        }
    } else {
        assert(s.push(c)[i] == c);
    }
}

/// A text ending in a non-white character loses only its leading white space.
proof fn lemma_trimmed_push(s: Seq<char>, c: char)
    requires
        !is_white_space(c),
    ensures
        trimmed(s.push(c)) == s.skip(trim_start_index(s)).push(c),
{
    let t = s.push(c);
    lemma_skip_push(s, c, 0);
    crate::text::lemma_skip_white_space_bounds(s, 0);
    let st = trim_start_index(s);
    assert(trim_start_index(t) == st);
    assert(t[t.len() - 1] == c);
    assert(back_white_space(t, st, t.len() as int) == t.len());
    assert(t.subrange(st, t.len() as int) =~= s.skip(st).push(c));
}

/// What a typed amount ending in a suffix letter reads as: the number
/// before the letter, at the letter's scale.
proof fn lemma_suffix_parts(s: Seq<char>, c: char)
    requires
        amount_scale(c) is Some,
    ensures
        display_amount_parts_of(s.push(c)) == match separators_normalized(
            without_amount_marks(s.skip(trim_start_index(s))),
        ) {
            Err(_) => Err(()),
            Ok(n) => Ok((n, amount_scale(c)->0)),
        },
{
    lemma_trimmed_push(s, c);
    let u = s.skip(trim_start_index(s));
    let t = u.push(c);
    assert(t.drop_last() == u);
    assert(t.last() == c);
    assert(without_amount_marks(t) == without_amount_marks(u).push(c));
    assert(without_amount_marks(u).push(c).drop_last() == without_amount_marks(u));
}

/// The scale of a typed amount follows its suffix letter, in either case:
/// `K` thousands (1), `M` millions (2), `B` billions (3), `T` trillions (4).
/// The same text with any of the letters reads as the same number.
pub proof fn lemma_amount_suffix_scale(s: Seq<char>)
    ensures
        display_amount_parts_of(s.push('k')) == display_amount_parts_of(s.push('K')),
        display_amount_parts_of(s.push('m')) == display_amount_parts_of(s.push('M')),
        display_amount_parts_of(s.push('b')) == display_amount_parts_of(s.push('B')),
        display_amount_parts_of(s.push('t')) == display_amount_parts_of(s.push('T')),
        display_amount_parts_of(s.push('K')) is Err ==> display_amount_parts_of(s.push('M')) is Err
            && display_amount_parts_of(s.push('B')) is Err && display_amount_parts_of(s.push('T')) is Err,
        display_amount_parts_of(s.push('K')) matches Ok((n, l)) ==> l == 1
            && display_amount_parts_of(s.push('M')) == Ok::<(Seq<char>, u8), ()>((n, 2u8))
            && display_amount_parts_of(s.push('B')) == Ok::<(Seq<char>, u8), ()>((n, 3u8))
            && display_amount_parts_of(s.push('T')) == Ok::<(Seq<char>, u8), ()>((n, 4u8)),
{
    lemma_suffix_parts(s, 'k');
    lemma_suffix_parts(s, 'K');
    lemma_suffix_parts(s, 'm');
    lemma_suffix_parts(s, 'M');
    lemma_suffix_parts(s, 'b');
    lemma_suffix_parts(s, 'B');
    lemma_suffix_parts(s, 't');
    lemma_suffix_parts(s, 'T');
}

/// A text of no currency marks is left as it is.
proof fn lemma_unmarked(s: Seq<char>)
    requires
        forall|i: int| 0 <= i < s.len() ==> !is_amount_mark(#[trigger] s[i]),
    ensures
        without_amount_marks(s) == s,
    decreases s.len(),
{
    if s.len() > 0 {
        lemma_unmarked(s.drop_last());
        assert(s.drop_last().push(s.last()) =~= s);
    }
}

/// A number text of no marks and no leading white space, followed by a
/// suffix letter, reads as that number at the letter's scale.
proof fn lemma_marked_free_suffix(t: Seq<char>, c: char)
    requires
        t.len() > 0,
        !is_white_space(t[0]),
        without_amount_marks(t) == t,
        separators_normalized(t) == Ok::<Seq<char>, ()>(t),
        amount_scale(c) is Some,
    ensures
        display_amount_parts_of(t.push(c)) == Ok::<(Seq<char>, u8), ()>((t, amount_scale(c)->0)),
{
    assert(skip_white_space(t, 0) == 0);
    assert(t.skip(0) =~= t);
    lemma_suffix_parts(t, c);
}

/// A decimal number typed with a suffix letter reads as that number at the
/// letter's scale, and with no letter at scale 0: `1.2` is `("1.2", 0)`,
/// `1.2k` and `1.2K` are `("1.2", 1)`, `1.2M` is `("1.2", 2)`, `1.2B` is
/// `("1.2", 3)` and `1.2T` is `("1.2", 4)`.
pub proof fn lemma_suffixed_decimal(a: Seq<char>, b: Seq<char>)
    requires
        a.len() > 0,
        b.len() > 0,
        all_digits(a),
        all_digits(b),
    ensures
        display_amount_parts_of(a.push('.') + b) == Ok::<(Seq<char>, u8), ()>((a.push('.') + b, 0u8)),
        display_amount_parts_of((a.push('.') + b).push('k')) == Ok::<(Seq<char>, u8), ()>((a.push('.') + b, 1u8)),
        display_amount_parts_of((a.push('.') + b).push('K')) == Ok::<(Seq<char>, u8), ()>((a.push('.') + b, 1u8)),
        display_amount_parts_of((a.push('.') + b).push('m')) == Ok::<(Seq<char>, u8), ()>((a.push('.') + b, 2u8)),
        display_amount_parts_of((a.push('.') + b).push('M')) == Ok::<(Seq<char>, u8), ()>((a.push('.') + b, 2u8)),
        display_amount_parts_of((a.push('.') + b).push('b')) == Ok::<(Seq<char>, u8), ()>((a.push('.') + b, 3u8)),
        display_amount_parts_of((a.push('.') + b).push('B')) == Ok::<(Seq<char>, u8), ()>((a.push('.') + b, 3u8)),
        display_amount_parts_of((a.push('.') + b).push('t')) == Ok::<(Seq<char>, u8), ()>((a.push('.') + b, 4u8)),
        display_amount_parts_of((a.push('.') + b).push('T')) == Ok::<(Seq<char>, u8), ()>((a.push('.') + b, 4u8)),
{
    let t = a.push('.') + b;
    lemma_plain_number(a, b);
    assert forall|i: int| 0 <= i < t.len() implies !is_amount_mark(#[trigger] t[i]) by {
        if i < a.len() {
            assert(t[i] == a[i]);
        } else if i > a.len() {
            assert(t[i] == b[i - a.len() - 1]);
        }
    }
    lemma_unmarked(t);
    assert(t[0] == a[0]);
    assert(t[t.len() - 1] == b[b.len() - 1]);
    lemma_digits_untrimmed(t);
    lemma_marked_free_suffix(t, 'k');
    lemma_marked_free_suffix(t, 'K');
    lemma_marked_free_suffix(t, 'm');
    lemma_marked_free_suffix(t, 'M');
    lemma_marked_free_suffix(t, 'b');
    lemma_marked_free_suffix(t, 'B');
    lemma_marked_free_suffix(t, 't');
    lemma_marked_free_suffix(t, 'T');
}

fn scale_of(c: char) -> (r: Option<u8>)
    ensures
        r == amount_scale(c),
{
    if c == 'K' || c == 'k' {
        Some(1)
    } else if c == 'M' || c == 'm' {
        Some(2)
    } else if c == 'B' || c == 'b' {
        Some(3)
    } else if c == 'T' || c == 't' {
        Some(4)
    } else {
        None
    }
}

/// Splits a typed amount (`"$1.2M"`, `"83,3"`) into the number text that is
/// then read as a floating-point number and the power of 1000 it is
/// multiplied by.
pub fn display_amount_parts(input: &str) -> (r: Result<(String, u8), ()>)
    ensures
        match (r, display_amount_parts_of(input@)) {
            (Ok((n, level)), Ok((m, l))) => n@ == m && level == l,
            (Err(_), Err(_)) => true,
            _ => false,
        },
{
    let t = trim_chars(&chars_of(input));
    if t.len() == 0 {
        return Err(());
    }
    let mut body: Vec<char> = Vec::new();
    let mut i: usize = 0;
    while i < t.len()
        invariant
            i <= t.len(),
            body@ == without_amount_marks(t@.take(i as int)),
        decreases t.len() - i,
    {
        let c = t[i];
        proof {
            assert(t@.take(i + 1).drop_last() == t@.take(i as int));
            assert(t@.take(i + 1).last() == c);
        }
        if !(c == '$' || c == '\u{20ac}' || c == '\u{a3}' || c == '\u{a5}' || c == '\u{20a9}' || c == ' ' || c == '_') {
            body.push(c);
        }
        i += 1;
    }
    assert(t@.take(t.len() as int) == t@);
    let mut level: u8 = 0;
    if body.len() > 0 {
        if let Some(l) = scale_of(body[body.len() - 1]) {
            level = l;
            let ghost before = body@;
            body.pop();
            assert(body@ == before.drop_last());
        }
    }
    let number = string_of(&body);
    match normalize_separators(number.as_str()) {
        Ok(n) => Ok((n, level)),
        Err(_) => Err(()),
    }
}

// ---------------------------------------------------------------------------
// Internal amounts
// ---------------------------------------------------------------------------
/// The display text of a raw internal amount: empty for blank text, the
/// text itself when it is not a finite number, else the amount divided by
/// 1200 in compact form (`"480000000"` is `"$400K"`).
pub open spec fn internal_amount_text(raw: Seq<char>) -> Seq<char> {
    let t = trimmed(raw);
    if t.len() == 0 {
        Seq::empty()
    } else {
        match float_text(t) {
            FloatText::Number { negative, digits, fraction, exponent } => {
                let n = digits_value(digits);
                let s = exponent - fraction;
                if finite_amount(n, s) {
                    display_text(negative, nearest_double(amount_num(n, s) * two_pow(1074), amount_den(s)))
                } else {
                    raw
                }
            },
            _ => raw,
        }
    }
}

/// Formats a raw internal amount for display.
///
/// The amount is read to the nearest double and each division rounds to
/// the nearest double, as IEEE 754 arithmetic does; the shown decimals are
/// the exact value of the last double rounded half to even.
pub fn format_internal_amount(raw: &str) -> (r: String)
    ensures
        r@ == internal_amount_text(raw@),
{
    let v = chars_of(raw);
    let t = trim_chars(&v);
    if t.len() == 0 {
        return String::new();
    }
    match parse_float_text(&t) {
        ParsedFloat::Number { negative, digits, fraction, exponent, huge_exponent } => {
            let ghost f = float_text(t@);
            let ghost x: int = match f {
                FloatText::Number { exponent, .. } => exponent,
                _ => 0,
            };
            proof {
                let d2 = match f {
                    FloatText::Number { digits, .. } => digits,
                    _ => Seq::empty(),
                };
                crate::decimal::lemma_digit_values(d2);
            }
            match amount_text(negative, &digits, fraction, exponent, huge_exponent, Ghost(x)) {
                Some(text) => string_of(&text),
                None => String::from_str(raw),
            }
        },
        _ => String::from_str(raw),
    }
}

} // verus!
