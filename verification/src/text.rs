//! Character-level helpers shared by every parser and formatter: Unicode
//! white space and control characters, trimming, splitting on a separator,
//! and decimal integers.

use vstd::prelude::*;

verus! {

broadcast use vstd::seq_lib::group_seq_properties;

/// `String::push` appends one character.
pub assume_specification[ String::push ](s: &mut String, ch: char)
    ensures
        final(s)@ == old(s)@.push(ch),
;

// ---------------------------------------------------------------------------
// Character classes
// ---------------------------------------------------------------------------
/// The Unicode `White_Space` property, which is what `char::is_whitespace`
/// and `str::trim` use.
pub open spec fn is_white_space(c: char) -> bool {
    let u = c as u32;
    ||| 0x09 <= u <= 0x0D
    ||| u == 0x20
    ||| u == 0x85
    ||| u == 0xA0
    ||| u == 0x1680
    ||| 0x2000 <= u <= 0x200A
    ||| u == 0x2028
    ||| u == 0x2029
    ||| u == 0x202F
    ||| u == 0x205F
    ||| u == 0x3000
}

/// The Unicode general category `Cc`, which is what `char::is_control` tests.
pub open spec fn is_control_char(c: char) -> bool {
    let u = c as u32;
    u <= 0x1F || (0x7F <= u <= 0x9F)
}

pub open spec fn is_digit(c: char) -> bool {
    '0' <= c <= '9'
}

pub open spec fn digit_value(c: char) -> nat {
    (c as u32 - '0' as u32) as nat
}

pub open spec fn digit_char(d: nat) -> char
    recommends
        d < 10,
{
    (d + '0' as u32) as char
}

pub fn white_space(c: char) -> (b: bool)
    ensures
        b == is_white_space(c),
{
    let u = c as u32;
    (0x09 <= u && u <= 0x0D) || u == 0x20 || u == 0x85 || u == 0xA0 || u == 0x1680 || (0x2000
        <= u && u <= 0x200A) || u == 0x2028 || u == 0x2029 || u == 0x202F || u == 0x205F || u
        == 0x3000
}

pub fn control_char(c: char) -> (b: bool)
    ensures
        b == is_control_char(c),
{
    let u = c as u32;
    u <= 0x1F || (0x7F <= u && u <= 0x9F)
}

pub fn ascii_digit(c: char) -> (b: bool)
    ensures
        b == is_digit(c),
{
    '0' <= c && c <= '9'
}

// ---------------------------------------------------------------------------
// Conversions between strings and character vectors
// ---------------------------------------------------------------------------
/// Copies the characters of a string slice into a vector.
pub fn chars_of(s: &str) -> (v: Vec<char>)
    ensures
        v@ == s@,
{
    let mut v: Vec<char> = Vec::new();
    for c in it: s.chars()
        invariant
            v@ == it.history(),
    {
        v.push(c);
    }
    v
}

/// Appends characters to a `String`.
pub fn push_chars(s: &mut String, v: &Vec<char>)
    ensures
        final(s)@ == old(s)@ + v@,
{
    let mut i: usize = 0;
    while i < v.len()
        invariant
            i <= v.len(),
            s@ == old(s)@ + v@.take(i as int),
        decreases v.len() - i,
    {
        s.push(v[i]);
        i += 1;
        assert(v@.take(i as int) == v@.take((i - 1) as int).push(v@[i - 1]));
    }
    assert(v@.take(v.len() as int) == v@);
}

/// Builds a `String` from a character vector.
pub fn string_of(v: &Vec<char>) -> (s: String)
    ensures
        s@ == v@,
{
    let mut s = String::new();
    push_chars(&mut s, v);
    s
}

/// Appends one vector of characters to another.
pub fn extend_chars(out: &mut Vec<char>, v: &Vec<char>)
    ensures
        final(out)@ == old(out)@ + v@,
{
    let mut i: usize = 0;
    while i < v.len()
        invariant
            i <= v.len(),
            out@ == old(out)@ + v@.take(i as int),
        decreases v.len() - i,
    {
        out.push(v[i]);
        i += 1;
        assert(v@.take(i as int) == v@.take((i - 1) as int).push(v@[i - 1]));
    }
    assert(v@.take(v.len() as int) == v@);
}

/// Appends the characters of a string slice to a vector.
pub fn extend_str(out: &mut Vec<char>, s: &str)
    ensures
        final(out)@ == old(out)@ + s@,
{
    let v = chars_of(s);
    extend_chars(out, &v);
}

/// Copies the characters `v[lo..hi]`.
pub fn slice_chars(v: &Vec<char>, lo: usize, hi: usize) -> (r: Vec<char>)
    requires
        lo <= hi <= v.len(),
    ensures
        r@ == v@.subrange(lo as int, hi as int),
{
    let mut r: Vec<char> = Vec::new();
    let mut i = lo;
    while i < hi
        invariant
            lo <= i <= hi <= v.len(),
            r@ == v@.subrange(lo as int, i as int),
        decreases hi - i,
    {
        r.push(v[i]);
        i += 1;
        assert(v@.subrange(lo as int, i as int) == v@.subrange(lo as int, (i - 1) as int).push(
            v@[i - 1],
        ));
    }
    r
}

/// Tests two character vectors for equality.
pub fn chars_eq(a: &Vec<char>, b: &Vec<char>) -> (r: bool)
    ensures
        r == (a@ == b@),
{
    if a.len() != b.len() {
        return false;
    }
    let mut i: usize = 0;
    while i < a.len()
        invariant
            a.len() == b.len(),
            i <= a.len(),
            forall|k: int| 0 <= k < i ==> a@[k] == b@[k],
        decreases a.len() - i,
    {
        if a[i] != b[i] {
            return false;
        }
        i += 1;
    }
    assert(a@ =~= b@);
    true
}

/// Tests a character vector against a string slice.
pub fn chars_eq_str(a: &Vec<char>, s: &str) -> (r: bool)
    ensures
        r == (a@ == s@),
{
    let b = chars_of(s);
    chars_eq(a, &b)
}

// ---------------------------------------------------------------------------
// Trimming
// ---------------------------------------------------------------------------
/// Index of the first character at or after `i` that is not white space.
pub open spec fn skip_white_space(s: Seq<char>, i: int) -> int
    decreases s.len() - i,
{
    if i < 0 || i >= s.len() {
        if i < 0 {
            0
        } else {
            s.len() as int
        }
    } else if is_white_space(s[i]) {
        skip_white_space(s, i + 1)
    } else {
        i
    }
}

/// End of `s[lo..j]` once trailing white space is removed.
pub open spec fn back_white_space(s: Seq<char>, lo: int, j: int) -> int
    decreases j - lo,
{
    if j <= lo {
        lo
    } else if is_white_space(s[j - 1]) {
        back_white_space(s, lo, j - 1)
    } else {
        j
    }
}

pub open spec fn trim_start_index(s: Seq<char>) -> int {
    skip_white_space(s, 0)
}

pub open spec fn trim_end_index(s: Seq<char>) -> int {
    back_white_space(s, trim_start_index(s), s.len() as int)
}

/// `str::trim`: the text without leading and trailing white space.
pub open spec fn trimmed(s: Seq<char>) -> Seq<char> {
    s.subrange(trim_start_index(s), trim_end_index(s))
}

/// A text that starts and ends with something other than white space is its
/// own trimmed text.
pub proof fn lemma_trimmed_unchanged(s: Seq<char>)
    requires
        s.len() > 0 ==> !is_white_space(s[0]) && !is_white_space(s[s.len() - 1]),
    ensures
        trimmed(s) == s,
{
    if s.len() > 0 {
        assert(skip_white_space(s, 0) == 0);
        assert(back_white_space(s, 0, s.len() as int) == s.len());
    }
    assert(s.subrange(0, s.len() as int) == s);
}

pub proof fn lemma_skip_white_space_bounds(s: Seq<char>, i: int)
    requires
        0 <= i <= s.len(),
    ensures
        i <= skip_white_space(s, i) <= s.len(),
        forall|k: int| i <= k < skip_white_space(s, i) ==> is_white_space(#[trigger] s[k]),
        skip_white_space(s, i) < s.len() ==> !is_white_space(s[skip_white_space(s, i)]),
    decreases s.len() - i,
{
    if i < s.len() && is_white_space(s[i]) {
        lemma_skip_white_space_bounds(s, i + 1);
    }
}

pub proof fn lemma_back_white_space_bounds(s: Seq<char>, lo: int, j: int)
    requires
        0 <= lo <= j <= s.len(),
    ensures
        lo <= back_white_space(s, lo, j) <= j,
        forall|k: int| back_white_space(s, lo, j) <= k < j ==> is_white_space(#[trigger] s[k]),
        back_white_space(s, lo, j) > lo ==> !is_white_space(s[back_white_space(s, lo, j) - 1]),
    decreases j - lo,
{
    if j > lo && is_white_space(s[j - 1]) {
        lemma_back_white_space_bounds(s, lo, j - 1);
    }
}

pub proof fn lemma_trim_bounds(s: Seq<char>)
    ensures
        0 <= trim_start_index(s) <= trim_end_index(s) <= s.len(),
        forall|k: int| 0 <= k < trim_start_index(s) ==> is_white_space(#[trigger] s[k]),
        forall|k: int| trim_end_index(s) <= k < s.len() ==> is_white_space(#[trigger] s[k]),
        trim_start_index(s) < trim_end_index(s) ==> !is_white_space(s[trim_start_index(s)])
            && !is_white_space(s[trim_end_index(s) - 1]),
{
    lemma_skip_white_space_bounds(s, 0);
    lemma_back_white_space_bounds(s, trim_start_index(s), s.len() as int);
}

/// The bounds `(start, end)` of the trimmed part of `v`.
pub fn trim_bounds(v: &Vec<char>) -> (r: (usize, usize))
    ensures
        r.0 == trim_start_index(v@),
        r.1 == trim_end_index(v@),
        r.0 <= r.1 <= v.len(),
{
    let mut i: usize = 0;
    while i < v.len() && white_space(v[i])
        invariant
            i <= v.len(),
            skip_white_space(v@, 0) == skip_white_space(v@, i as int),
        decreases v.len() - i,
    {
        i += 1;
    }
    let mut j: usize = v.len();
    while j > i && white_space(v[j - 1])
        invariant
            i <= j <= v.len(),
            i == trim_start_index(v@),
            back_white_space(v@, i as int, v.len() as int) == back_white_space(
                v@,
                i as int,
                j as int,
            ),
        decreases j - i,
    {
        j -= 1;
    }
    proof {
        lemma_trim_bounds(v@);
    }
    (i, j)
}

/// `str::trim` on a character vector.
pub fn trim_chars(v: &Vec<char>) -> (r: Vec<char>)
    ensures
        r@ == trimmed(v@),
{
    let (a, b) = trim_bounds(v);
    slice_chars(v, a, b)
}

/// Whether the text is empty once trimmed (`s.trim().is_empty()`).
pub fn is_blank(v: &Vec<char>) -> (r: bool)
    ensures
        r == (trimmed(v@).len() == 0),
{
    let (a, b) = trim_bounds(v);
    a == b
}

// ---------------------------------------------------------------------------
// Searching and splitting
// ---------------------------------------------------------------------------
/// Index of the first `c` at or after `i`, or `s.len()` when there is none.
pub open spec fn find_from(s: Seq<char>, c: char, i: int) -> int
    decreases s.len() - i,
{
    if i < 0 {
        find_from(s, c, 0)
    } else if i >= s.len() {
        s.len() as int
    } else if s[i] == c {
        i
    } else {
        find_from(s, c, i + 1)
    }
}

pub open spec fn find_char(s: Seq<char>, c: char) -> int {
    find_from(s, c, 0)
}

pub proof fn lemma_find_from(s: Seq<char>, c: char, i: int)
    requires
        0 <= i <= s.len(),
    ensures
        i <= find_from(s, c, i) <= s.len(),
        forall|k: int| i <= k < find_from(s, c, i) ==> #[trigger] s[k] != c,
        find_from(s, c, i) < s.len() ==> s[find_from(s, c, i)] == c,
    decreases s.len() - i,
{
    if i < s.len() && s[i] != c {
        lemma_find_from(s, c, i + 1);
    }
}

pub proof fn lemma_find_char(s: Seq<char>, c: char)
    ensures
        0 <= find_char(s, c) <= s.len(),
        forall|k: int| 0 <= k < find_char(s, c) ==> #[trigger] s[k] != c,
        find_char(s, c) < s.len() ==> s[find_char(s, c)] == c,
        (find_char(s, c) == s.len()) == !s.contains(c),
{
    lemma_find_from(s, c, 0);
}

/// The first `c` in `a + [c] + b` is the one after `a`, when `a` holds none.
pub proof fn lemma_find_char_joined(a: Seq<char>, c: char, b: Seq<char>)
    requires
        !a.contains(c),
    ensures
        find_char(a.push(c) + b, c) == a.len(),
{
    let s = a.push(c) + b;
    lemma_find_char(s, c);
    if find_char(s, c) < a.len() {
        assert(s[find_char(s, c)] == a[find_char(s, c)]);
    }
    assert(s[a.len() as int] == c);
}

/// The index of the first `c` in `v`, or `v.len()`.
pub fn find_char_in(v: &Vec<char>, c: char) -> (r: usize)
    ensures
        r == find_char(v@, c),
{
    let mut i: usize = 0;
    while i < v.len() && v[i] != c
        invariant
            i <= v.len(),
            find_from(v@, c, 0) == find_from(v@, c, i as int),
        decreases v.len() - i,
    {
        i += 1;
    }
    i
}

/// `str::split_once`: the text before and after the first `c`.
pub open spec fn split_once(s: Seq<char>, c: char) -> Option<(Seq<char>, Seq<char>)> {
    let i = find_char(s, c);
    if i < s.len() {
        Some((s.take(i), s.skip(i + 1)))
    } else {
        None
    }
}

pub fn split_once_chars(v: &Vec<char>, c: char) -> (r: Option<(Vec<char>, Vec<char>)>)
    ensures
        match (r, split_once(v@, c)) {
            (Some((a, b)), Some((sa, sb))) => a@ == sa && b@ == sb,
            (None, None) => true,
            _ => false,
        },
{
    let i = find_char_in(v, c);
    if i < v.len() {
        Some((slice_chars(v, 0, i), slice_chars(v, i + 1, v.len())))
    } else {
        None
    }
}

/// `str::split`: the pieces between occurrences of `c`, built from the left.
pub open spec fn split_pieces(s: Seq<char>, c: char) -> Seq<Seq<char>>
    decreases s.len(),
{
    if s.len() == 0 {
        seq![Seq::<char>::empty()]
    } else {
        let p = split_pieces(s.drop_last(), c);
        if s.last() == c {
            p.push(Seq::<char>::empty())
        } else {
            p.update(p.len() - 1, p.last().push(s.last()))
        }
    }
}

pub proof fn lemma_split_pieces_nonempty(s: Seq<char>, c: char)
    ensures
        split_pieces(s, c).len() >= 1,
    decreases s.len(),
{
    if s.len() > 0 {
        lemma_split_pieces_nonempty(s.drop_last(), c);
    }
}

/// A text without the separator is a single piece.
pub proof fn lemma_split_pieces_single(s: Seq<char>, c: char)
    requires
        !s.contains(c),
    ensures
        split_pieces(s, c) == seq![s],
    decreases s.len(),
{
    if s.len() > 0 {
        assert(!s.drop_last().contains(c)) by {
            if s.drop_last().contains(c) {
                let k = choose|k: int| 0 <= k < s.drop_last().len() && s.drop_last()[k] == c;
                assert(s[k] == c);
            }
        }
        lemma_split_pieces_single(s.drop_last(), c);
        assert(s.last() != c) by {
            assert(s[s.len() - 1] == s.last());
        }
        assert(s.drop_last().push(s.last()) == s);
    }
}

/// Splitting `a + [c] + b` gives the pieces of `a` followed by those of `b`.
pub proof fn lemma_split_pieces_concat(a: Seq<char>, c: char, b: Seq<char>)
    ensures
        split_pieces(a.push(c) + b, c) == split_pieces(a, c) + split_pieces(b, c),
    decreases b.len(),
{
    lemma_split_pieces_nonempty(a, c);
    lemma_split_pieces_nonempty(b, c);
    if b.len() == 0 {
        assert(a.push(c) + b == a.push(c));
        assert(a.push(c).drop_last() == a);
    } else {
        let s = a.push(c) + b;
        assert(s.drop_last() == a.push(c) + b.drop_last());
        assert(s.last() == b.last());
        lemma_split_pieces_concat(a, c, b.drop_last());
        lemma_split_pieces_nonempty(b.drop_last(), c);
        let pa = split_pieces(a, c);
        let pb = split_pieces(b.drop_last(), c);
        if b.last() == c {
            assert((pa + pb).push(Seq::<char>::empty()) == pa + pb.push(Seq::<char>::empty()));
        } else {
            assert((pa + pb).update((pa + pb).len() - 1, (pa + pb).last().push(b.last())) == pa
                + pb.update(pb.len() - 1, pb.last().push(b.last())));
        }
    }
}

/// The character contents of each vector.
pub open spec fn views(v: Seq<Vec<char>>) -> Seq<Seq<char>> {
    v.map_values(|x: Vec<char>| x@)
}

/// `str::split` on a character vector.
pub fn split_chars(v: &Vec<char>, c: char) -> (r: Vec<Vec<char>>)
    ensures
        views(r@) == split_pieces(v@, c),
{
    let mut done: Vec<Vec<char>> = Vec::new();
    let mut cur: Vec<char> = Vec::new();
    let mut i: usize = 0;
    while i < v.len()
        invariant
            i <= v.len(),
            views(done@).push(cur@) == split_pieces(v@.take(i as int), c),
        decreases v.len() - i,
    {
        let ghost prev = v@.take(i as int);
        let ch = v[i];
        i += 1;
        assert(v@.take(i as int).drop_last() == prev);
        assert(v@.take(i as int).last() == ch);
        if ch == c {
            let ghost old_done = done@;
            let piece = cur;
            done.push(piece);
            cur = Vec::new();
            assert(views(done@) =~= views(old_done).push(piece@));
            assert(views(done@).push(cur@) =~= split_pieces(prev, c).push(Seq::<char>::empty()));
        } else {
            let ghost old_cur = cur@;
            cur.push(ch);
            assert(views(done@).push(cur@) =~= views(done@).push(old_cur).update(
                views(done@).len() as int,
                old_cur.push(ch),
            ));
        }
    }
    assert(v@.take(v.len() as int) == v@);
    let ghost old_done = done@;
    let last = cur;
    done.push(last);
    assert(views(done@) =~= views(old_done).push(last@));
    done
}

/// Joins pieces with a separator (`[..].join(sep)`).
pub open spec fn join_pieces(ps: Seq<Seq<char>>, sep: char) -> Seq<char>
    decreases ps.len(),
{
    if ps.len() == 0 {
        Seq::<char>::empty()
    } else if ps.len() == 1 {
        ps[0]
    } else {
        join_pieces(ps.drop_last(), sep).push(sep) + ps.last()
    }
}

/// Splitting a joined text gives back the pieces, when none holds the separator.
pub proof fn lemma_split_join(ps: Seq<Seq<char>>, sep: char)
    requires
        ps.len() >= 1,
        forall|i: int| 0 <= i < ps.len() ==> !(#[trigger] ps[i]).contains(sep),
    ensures
        split_pieces(join_pieces(ps, sep), sep) == ps,
    decreases ps.len(),
{
    if ps.len() == 1 {
        lemma_split_pieces_single(ps[0], sep);
        assert(seq![ps[0]] == ps);
    } else {
        lemma_split_join(ps.drop_last(), sep);
        lemma_split_pieces_concat(join_pieces(ps.drop_last(), sep), sep, ps.last());
        lemma_split_pieces_single(ps.last(), sep);
        assert(ps.drop_last().push(ps.last()) == ps);
    }
}

pub proof fn lemma_join_contains(ps: Seq<Seq<char>>, sep: char, c: char)
    requires
        c != sep,
        forall|i: int| 0 <= i < ps.len() ==> !(#[trigger] ps[i]).contains(c),
    ensures
        !join_pieces(ps, sep).contains(c),
    decreases ps.len(),
{
    if ps.len() > 1 {
        lemma_join_contains(ps.drop_last(), sep, c);
        let j = join_pieces(ps.drop_last(), sep).push(sep);
        assert(!ps.last().contains(c)) by {
            assert(ps.last() == ps[ps.len() - 1]);
        }
        if (j + ps.last()).contains(c) {
            let k = choose|k: int| 0 <= k < (j + ps.last()).len() && (j + ps.last())[k] == c;
            if k < j.len() {
                if k < j.len() - 1 {
                    assert(join_pieces(ps.drop_last(), sep)[k] == c);
                }
            } else {
                assert(ps.last()[k - j.len()] == c);
            }
        }
    } else if ps.len() == 1 {
        assert(!ps[0].contains(c));
    }
}

// ---------------------------------------------------------------------------
// Decimal integers
// ---------------------------------------------------------------------------
pub open spec fn all_digits(s: Seq<char>) -> bool {
    forall|i: int| 0 <= i < s.len() ==> is_digit(#[trigger] s[i])
}

/// The value of a string of decimal digits.
pub open spec fn digits_value(s: Seq<char>) -> nat
    decreases s.len(),
{
    if s.len() == 0 {
        0
    } else {
        digits_value(s.drop_last()) * 10 + digit_value(s.last())
    }
}

/// The digits after an optional leading sign character.
pub open spec fn unsigned_body(s: Seq<char>) -> Seq<char> {
    if s.len() > 0 && s[0] == '+' {
        s.drop_first()
    } else {
        s
    }
}

/// `str::parse` for an unsigned integer type whose largest value is `max`:
/// an optional `+`, then at least one digit, with a value that fits.
pub open spec fn parse_unsigned(s: Seq<char>, max: nat) -> Option<nat> {
    let body = unsigned_body(s);
    if body.len() > 0 && all_digits(body) && digits_value(body) <= max {
        Some(digits_value(body))
    } else {
        None
    }
}

/// `str::parse::<usize>()`.
pub open spec fn parse_usize_spec(s: Seq<char>) -> Option<usize> {
    match parse_unsigned(s, usize::MAX as nat) {
        Some(n) => Some(n as usize),
        None => None,
    }
}

/// `str::parse::<u16>()`.
pub open spec fn parse_u16_spec(s: Seq<char>) -> Option<u16> {
    match parse_unsigned(s, u16::MAX as nat) {
        Some(n) => Some(n as u16),
        None => None,
    }
}

/// `str::parse::<u128>()`.
pub open spec fn parse_u128_spec(s: Seq<char>) -> Option<u128> {
    match parse_unsigned(s, u128::MAX as nat) {
        Some(n) => Some(n as u128),
        None => None,
    }
}

/// `str::parse::<i32>()`: an optional sign, then at least one digit.
pub open spec fn parse_i32_spec(s: Seq<char>) -> Option<i32> {
    if s.len() > 0 && s[0] == '-' {
        let body = s.drop_first();
        if body.len() > 0 && all_digits(body) && digits_value(body) <= 0x8000_0000 {
            Some((0 - digits_value(body)) as i32)
        } else {
            None
        }
    } else {
        match parse_unsigned(s, 0x7fff_ffff) {
            Some(n) => Some(n as i32),
            None => None,
        }
    }
}

/// Appending a digit multiplies by ten and adds it.
pub proof fn lemma_digits_value_push(s: Seq<char>, c: char)
    ensures
        digits_value(s.push(c)) == digits_value(s) * 10 + digit_value(c),
{
    assert(s.push(c).drop_last() == s);
}

/// A longer prefix never has a smaller value.
pub proof fn lemma_digits_value_prefix(s: Seq<char>, i: int)
    requires
        0 <= i <= s.len(),
    ensures
        digits_value(s.take(i)) <= digits_value(s),
    decreases s.len() - i,
{
    if i < s.len() {
        lemma_digits_value_prefix(s, i + 1);
        lemma_digits_value_push(s.take(i), s[i]);
        assert(s.take(i + 1) == s.take(i).push(s[i]));
    } else {
        assert(s.take(i) == s);
    }
}

/// Parses the digits `v[lo..]` into a number no larger than `max`.
fn parse_digits(v: &Vec<char>, lo: usize, max: u128) -> (r: Option<u128>)
    requires
        lo <= v.len(),
    ensures
        ({
            let body = v@.skip(lo as int);
            match r {
                Some(n) => body.len() > 0 && all_digits(body) && digits_value(body) <= max && n
                    == digits_value(body),
                None => !(body.len() > 0 && all_digits(body) && digits_value(body) <= max),
            }
        }),
{
    let ghost body = v@.skip(lo as int);
    if lo == v.len() {
        return None;
    }
    let mut acc: u128 = 0;
    let mut i = lo;
    while i < v.len()
        invariant
            lo <= i <= v.len(),
            body == v@.skip(lo as int),
            all_digits(body.take(i - lo)),
            acc == digits_value(body.take(i - lo)),
            acc <= max,
        decreases v.len() - i,
    {
        let c = v[i];
        assert(body[i - lo] == c);
        if !ascii_digit(c) {
            return None;
        }
        let d = (c as u32 - '0' as u32) as u128;
        if d > max {
            proof {
                lemma_digits_value_push(body.take(i - lo), c);
                lemma_digits_value_prefix(body, i - lo + 1);
                assert(body.take(i - lo + 1) == body.take(i - lo).push(c));
            }
            return None;
        }
        assert(body.take(i - lo + 1) == body.take(i - lo).push(c));
        proof {
            lemma_digits_value_push(body.take(i - lo), c);
        }
        if acc > (max - d) / 10 {
            proof {
                assert(acc * 10 + d > max) by (nonlinear_arith)
                    requires
                        acc > (max - d) / 10,
                        d <= max || d > max,
                        d <= 9,
                ;
                lemma_digits_value_prefix(body, i - lo + 1);
            }
            return None;
        }
        assert(acc * 10 + d <= max) by (nonlinear_arith)
            requires
                acc <= (max - d) / 10,
                d <= max,
        ;
        acc = acc * 10 + d;
        i += 1;
    }
    assert(body.take(i - lo) == body);
    Some(acc)
}

/// `str::parse` for an unsigned type whose largest value is `max`.
pub fn parse_unsigned_chars(v: &Vec<char>, max: u128) -> (r: Option<u128>)
    ensures
        match r {
            Some(n) => parse_unsigned(v@, max as nat) == Some(n as nat),
            None => parse_unsigned(v@, max as nat) is None,
        },
{
    let lo: usize = if v.len() > 0 && v[0] == '+' {
        1
    } else {
        0
    };
    assert(unsigned_body(v@) == v@.skip(lo as int));
    parse_digits(v, lo, max)
}

/// `str::parse::<usize>()`.
pub fn parse_usize_chars(v: &Vec<char>) -> (r: Option<usize>)
    ensures
        r == parse_usize_spec(v@),
{
    match parse_unsigned_chars(v, usize::MAX as u128) {
        Some(n) => Some(n as usize),
        None => None,
    }
}

/// `str::parse::<u16>()`.
pub fn parse_u16_chars(v: &Vec<char>) -> (r: Option<u16>)
    ensures
        r == parse_u16_spec(v@),
{
    match parse_unsigned_chars(v, u16::MAX as u128) {
        Some(n) => Some(n as u16),
        None => None,
    }
}

/// `str::parse::<u128>()`.
pub fn parse_u128_chars(v: &Vec<char>) -> (r: Option<u128>)
    ensures
        r == parse_u128_spec(v@),
{
    parse_unsigned_chars(v, u128::MAX)
}

/// `str::parse::<i32>()`.
pub fn parse_i32_chars(v: &Vec<char>) -> (r: Option<i32>)
    ensures
        r == parse_i32_spec(v@),
{
    if v.len() > 0 && v[0] == '-' {
        assert(v@.drop_first() == v@.skip(1));
        match parse_digits(v, 1, 0x8000_0000) {
            Some(n) => Some((0 - (n as i128)) as i32),
            None => None,
        }
    } else {
        match parse_unsigned_chars(v, 0x7fff_ffff) {
            Some(n) => Some(n as i32),
            None => None,
        }
    }
}

/// The decimal digits of `n`, without leading zeros (`n.to_string()`).
pub open spec fn decimal_text(n: nat) -> Seq<char>
    decreases n,
{
    if n < 10 {
        seq![digit_char(n)]
    } else {
        decimal_text(n / 10).push(digit_char(n % 10))
    }
}

pub proof fn lemma_decimal_text(n: nat)
    ensures
        decimal_text(n).len() > 0,
        all_digits(decimal_text(n)),
        digits_value(decimal_text(n)) == n,
        decimal_text(n).len() > 1 ==> decimal_text(n)[0] != '0',
    decreases n,
{
    if n < 10 {
        let t = decimal_text(n);
        assert(t.drop_last() =~= Seq::<char>::empty());
        assert(digits_value(Seq::<char>::empty()) == 0);
        assert(digits_value(t) == digits_value(t.drop_last()) * 10 + digit_value(t.last()));
        assert(digit_value(digit_char(n)) == n);
    } else {
        lemma_decimal_text(n / 10);
        lemma_digits_value_push(decimal_text(n / 10), digit_char(n % 10));
        let t = decimal_text(n / 10);
        assert(digit_value(digit_char(n % 10)) == n % 10);
        assert(n == (n / 10) * 10 + n % 10);
        assert(decimal_text(n) == t.push(digit_char(n % 10)));
        assert(digits_value(t.push(digit_char(n % 10))) == n);
        assert(t.push(digit_char(n % 10))[0] == t[0]);
        assert forall|i: int| 0 <= i < t.push(digit_char(n % 10)).len() implies is_digit(
            #[trigger] t.push(digit_char(n % 10))[i],
        ) by {
            if i < t.len() {
                assert(t.push(digit_char(n % 10))[i] == t[i]);
            }
        }
        if t.len() == 1 {
            assert(digits_value(t) == digits_value(t.drop_last()) * 10 + digit_value(t.last()));
            assert(t.drop_last().len() == 0);
            assert(t[0] == t.last());
        }
    }
}

/// Parsing the decimal text of a number gives the number back.
pub proof fn lemma_parse_decimal_text(n: nat, max: nat)
    requires
        n <= max,
    ensures
        parse_unsigned(decimal_text(n), max) == Some(n),
{
    lemma_decimal_text(n);
    assert(decimal_text(n)[0] != '+');
}

/// Every character of a decimal text is a digit, so none is a separator.
pub proof fn lemma_decimal_text_no(n: nat, c: char)
    requires
        !is_digit(c),
    ensures
        !decimal_text(n).contains(c),
{
    lemma_decimal_text(n);
    if decimal_text(n).contains(c) {
        let k = choose|k: int| 0 <= k < decimal_text(n).len() && decimal_text(n)[k] == c;
        assert(is_digit(decimal_text(n)[k]));
    }
}

/// Appends the decimal digits of `n` (`n.to_string()`).
pub fn push_decimal(out: &mut Vec<char>, n: u128)
    ensures
        final(out)@ == old(out)@ + decimal_text(n as nat),
    decreases n,
{
    if n < 10 {
        out.push(((n as u32) + ('0' as u32)) as u8 as char);
        assert(seq![digit_char(n as nat)] =~= seq![(((n as u32) + ('0' as u32)) as u8 as char)]);
    } else {
        push_decimal(out, n / 10);
        out.push((((n % 10) as u32) + ('0' as u32)) as u8 as char);
    }
}

/// `n.to_string()`.
pub fn decimal_string(n: u128) -> (s: String)
    ensures
        s@ == decimal_text(n as nat),
{
    let mut v: Vec<char> = Vec::new();
    push_decimal(&mut v, n);
    string_of(&v)
}

} // verus!

verus! {

// ---------------------------------------------------------------------------
// Ordering of texts
// ---------------------------------------------------------------------------
/// The order of `String`s: lexicographic by character (which is also the
/// order of their UTF-8 bytes).
pub open spec fn lex_lt(a: Seq<char>, b: Seq<char>) -> bool
    decreases a.len(),
{
    if b.len() == 0 {
        false
    } else if a.len() == 0 {
        true
    } else if a[0] != b[0] {
        a[0] < b[0]
    } else {
        lex_lt(a.drop_first(), b.drop_first())
    }
}

pub proof fn lemma_lex_irreflexive(a: Seq<char>)
    ensures
        !lex_lt(a, a),
    decreases a.len(),
{
    if a.len() > 0 {
        lemma_lex_irreflexive(a.drop_first());
    }
}

pub proof fn lemma_lex_total(a: Seq<char>, b: Seq<char>)
    ensures
        lex_lt(a, b) || lex_lt(b, a) || a == b,
        !(lex_lt(a, b) && lex_lt(b, a)),
    decreases a.len(),
{
    if a.len() == 0 && b.len() == 0 {
        assert(a =~= b);
    } else if a.len() > 0 && b.len() > 0 && a[0] == b[0] {
        lemma_lex_total(a.drop_first(), b.drop_first());
        if a.drop_first() == b.drop_first() {
            assert(a =~= b) by {
                assert forall|i: int| 0 <= i < a.len() implies a[i] == b[i] by {
                    if i > 0 {
                        assert(a[i] == a.drop_first()[i - 1]);
                        assert(b[i] == b.drop_first()[i - 1]);
                    }
                }
            }
        }
    }
}

pub proof fn lemma_lex_transitive(a: Seq<char>, b: Seq<char>, c: Seq<char>)
    requires
        lex_lt(a, b),
        lex_lt(b, c),
    ensures
        lex_lt(a, c),
    decreases a.len(),
{
    if a.len() > 0 && b.len() > 0 && c.len() > 0 && a[0] == b[0] && b[0] == c[0] {
        lemma_lex_transitive(a.drop_first(), b.drop_first(), c.drop_first());
    }
}

/// Whether `a` comes before `b` in `String` order.
pub fn text_less(a: &Vec<char>, b: &Vec<char>) -> (r: bool)
    ensures
        r == lex_lt(a@, b@),
{
    let mut i: usize = 0;
    while i < a.len() && i < b.len() && a[i] == b[i]
        invariant
            i <= a.len(),
            i <= b.len(),
            lex_lt(a@, b@) == lex_lt(a@.skip(i as int), b@.skip(i as int)),
        decreases a.len() - i,
    {
        assert(a@.skip(i as int).drop_first() == a@.skip(i as int + 1));
        assert(b@.skip(i as int).drop_first() == b@.skip(i as int + 1));
        i += 1;
    }
    if i == b.len() {
        false
    } else if i == a.len() {
        true
    } else {
        a[i] < b[i]
    }
}

} // verus!

verus! {

/// Joins character vectors with a separator.
pub fn join_chars(pieces: &Vec<Vec<char>>, sep: char) -> (r: Vec<char>)
    ensures
        r@ == join_pieces(views(pieces@), sep),
{
    let mut out: Vec<char> = Vec::new();
    let mut i: usize = 0;
    while i < pieces.len()
        invariant
            i <= pieces.len(),
            out@ == join_pieces(views(pieces@).take(i as int), sep),
        decreases pieces.len() - i,
    {
        let ghost before = views(pieces@).take(i as int);
        if i != 0 {
            out.push(sep);
        }
        extend_chars(&mut out, &pieces[i]);
        i += 1;
        proof {
            let now = views(pieces@).take(i as int);
            assert(now.drop_last() == before);
            if i == 1 {
                assert(now =~= seq![pieces@[0]@]);
            }
        }
    }
    assert(views(pieces@).take(pieces.len() as int) == views(pieces@));
    out
}

} // verus!
