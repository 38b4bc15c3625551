//! The JSON values that the global history keeps, and the Bridge's own
//! encoder for them: compact, members in key order, and every control
//! character escaped.

use vstd::prelude::*;
use crate::hex::hex_digit;
use crate::text::{chars_of, extend_str, lex_lt};

verus! {

broadcast use vstd::seq_lib::group_seq_properties;

/// A JSON value. Object members are kept in key order, each key once, as
/// `serde_json` keeps them.
pub enum JsonValue {
    Null,
    Bool(bool),
    /// A number, by its text.
    Number(String),
    Str(String),
    Array(Vec<JsonValue>),
    Object(Vec<(String, JsonValue)>),
}

/// A JSON value as plain values.
pub enum JsonView {
    Null,
    Bool(bool),
    Number(Seq<char>),
    Str(Seq<char>),
    Array(Seq<JsonView>),
    Object(Seq<(Seq<char>, JsonView)>),
}

pub open spec fn json_view(v: JsonValue) -> JsonView
    decreases v, 0nat,
{
    match v {
        JsonValue::Null => JsonView::Null,
        JsonValue::Bool(b) => JsonView::Bool(b),
        JsonValue::Number(n) => JsonView::Number(n@),
        JsonValue::Str(s) => JsonView::Str(s@),
        JsonValue::Array(vs) => JsonView::Array(json_views(vs@)),
        JsonValue::Object(ps) => JsonView::Object(member_views(ps@)),
    }
}

pub open spec fn json_views(s: Seq<JsonValue>) -> Seq<JsonView>
    decreases s, 1nat,
{
    if s.len() == 0 {
        Seq::empty()
    } else {
        json_views(s.drop_last()).push(json_view(s.last()))
    }
}

pub open spec fn member_views(s: Seq<(String, JsonValue)>) -> Seq<(Seq<char>, JsonView)>
    decreases s, 1nat,
{
    if s.len() == 0 {
        Seq::empty()
    } else {
        member_views(s.drop_last()).push((s.last().0@, json_view(s.last().1)))
    }
}

impl View for JsonValue {
    type V = JsonView;

    open spec fn view(&self) -> JsonView {
        json_view(*self)
    }
}

pub proof fn lemma_json_views(s: Seq<JsonValue>)
    ensures
        json_views(s).len() == s.len(),
        forall|i: int| 0 <= i < s.len() ==> #[trigger] json_views(s)[i] == json_view(s[i]),
    decreases s.len(),
{
    if s.len() > 0 {
        lemma_json_views(s.drop_last());
        assert forall|i: int| 0 <= i < s.len() implies #[trigger] json_views(s)[i] == json_view(s[i]) by {
            if i < s.len() - 1 {
                assert(s.drop_last()[i] == s[i]);
            }
        }
    }
}

pub proof fn lemma_member_views(s: Seq<(String, JsonValue)>)
    ensures
        member_views(s).len() == s.len(),
        forall|i: int| 0 <= i < s.len() ==> #[trigger] member_views(s)[i] == (s[i].0@, json_view(s[i].1)),
    decreases s.len(),
{
    if s.len() > 0 {
        lemma_member_views(s.drop_last());
        assert forall|i: int| 0 <= i < s.len() implies #[trigger] member_views(s)[i] == (s[i].0@, json_view(s[i].1)) by {
            if i < s.len() - 1 {
                assert(s.drop_last()[i] == s[i]);
            }
        }
    }
}

// ---------------------------------------------------------------------------
// Encoding
// ---------------------------------------------------------------------------
/// How one character of a string is written: quotes, backslashes and
/// control characters escaped, everything else as it is.
pub open spec fn escaped_char(c: char) -> Seq<char> {
    if c == '"' {
        seq!['\\', '"']
    } else if c == '\\' {
        seq!['\\', '\\']
    } else if c == '\u{08}' {
        seq!['\\', 'b']
    } else if c == '\u{0c}' {
        seq!['\\', 'f']
    } else if c == '\n' {
        seq!['\\', 'n']
    } else if c == '\r' {
        seq!['\\', 'r']
    } else if c == '\t' {
        seq!['\\', 't']
    } else if (c as u32) <= 0x1f {
        seq!['\\', 'u', '0', '0', hex_digit((c as u32 / 16) as nat), hex_digit((c as u32 % 16) as nat)]
    } else {
        seq![c]
    }
}

pub open spec fn escaped_text(s: Seq<char>) -> Seq<char>
    decreases s.len(),
{
    if s.len() == 0 {
        Seq::empty()
    } else {
        escaped_text(s.drop_last()) + escaped_char(s.last())
    }
}

/// A string as JSON text.
pub open spec fn string_text(s: Seq<char>) -> Seq<char> {
    seq!['"'] + escaped_text(s) + seq!['"']
}

/// A value as JSON text.
pub open spec fn json_text(v: JsonView) -> Seq<char>
    decreases v, 0nat,
{
    match v {
        JsonView::Null => "null"@,
        JsonView::Bool(b) => if b {
            "true"@
        } else {
            "false"@
        },
        JsonView::Number(n) => n,
        JsonView::Str(s) => string_text(s),
        JsonView::Array(vs) => seq!['['] + items_text(vs) + seq![']'],
        JsonView::Object(ps) => seq!['{'] + members_text(ps) + seq!['}'],
    }
}

/// Values separated by commas.
pub open spec fn items_text(vs: Seq<JsonView>) -> Seq<char>
    decreases vs, 1nat,
{
    if vs.len() == 0 {
        Seq::empty()
    } else if vs.len() == 1 {
        json_text(vs[0])
    } else {
        items_text(vs.drop_last()).push(',') + json_text(vs.last())
    }
}

/// `"key":value` members separated by commas.
pub open spec fn members_text(ps: Seq<(Seq<char>, JsonView)>) -> Seq<char>
    decreases ps, 1nat,
{
    if ps.len() == 0 {
        Seq::empty()
    } else if ps.len() == 1 {
        string_text(ps[0].0).push(':') + json_text(ps[0].1)
    } else {
        members_text(ps.drop_last()).push(',') + string_text(ps.last().0).push(':') + json_text(
            ps.last().1,
        )
    }
}

// ---------------------------------------------------------------------------
// Reading strings back
// ---------------------------------------------------------------------------
/// The value of a hexadecimal digit, in either case.
pub open spec fn hex_digit_value(c: char) -> nat {
    if '0' <= c && c <= '9' {
        (c as u32 - '0' as u32) as nat
    } else if 'a' <= c && c <= 'f' {
        (c as u32 - 'a' as u32 + 10) as nat
    } else if 'A' <= c && c <= 'F' {
        (c as u32 - 'A' as u32 + 10) as nat
    } else {
        0
    }
}

/// The character a one-letter escape stands for.
pub open spec fn escape_letter(c: char) -> char {
    if c == 'b' {
        '\u{08}'
    } else if c == 'f' {
        '\u{0c}'
    } else if c == 'n' {
        '\n'
    } else if c == 'r' {
        '\r'
    } else if c == 't' {
        '\t'
    } else {
        c
    }
}

/// The characters that the inside of a JSON string stands for: `\uXXXX`
/// and one-letter escapes read back, everything else as it is.
pub open spec fn unescaped(t: Seq<char>) -> Seq<char>
    decreases t.len(),
{
    if t.len() >= 6 && t[0] == '\\' && t[1] == 'u' {
        let v = hex_digit_value(t[2]) * 4096 + hex_digit_value(t[3]) * 256 + hex_digit_value(t[4])
            * 16 + hex_digit_value(t[5]);
        seq![v as char] + unescaped(t.skip(6))
    } else if t.len() >= 2 && t[0] == '\\' {
        seq![escape_letter(t[1])] + unescaped(t.skip(2))
    } else if t.len() >= 1 {
        seq![t[0]] + unescaped(t.skip(1))
    } else {
        Seq::empty()
    }
}

proof fn lemma_escaped_concat(a: Seq<char>, b: Seq<char>)
    ensures
        escaped_text(a + b) == escaped_text(a) + escaped_text(b),
    decreases b.len(),
{
    if b.len() == 0 {
        assert(a + b =~= a);
    } else {
        lemma_escaped_concat(a, b.drop_last());
        assert((a + b).drop_last() =~= a + b.drop_last());
        assert((a + b).last() == b.last());
    }
}

proof fn lemma_hex_digit_value(n: nat)
    requires
        n < 16,
    ensures
        hex_digit_value(hex_digit(n)) == n,
        hex_digit(n) as u32 > 0x1f,
{
}

/// One escaped character reads back as itself.
proof fn lemma_unescape_char(c: char, rest: Seq<char>)
    ensures
        unescaped(escaped_char(c) + rest) == seq![c] + unescaped(rest),
        forall|i: int| 0 <= i < escaped_char(c).len() ==> (#[trigger] escaped_char(c)[i]) as u32 > 0x1f,
{
    let t = escaped_char(c) + rest;
    if c == '"' || c == '\\' || c == '\u{08}' || c == '\u{0c}' || c == '\n' || c == '\r' || c == '\t' {
        assert(t.skip(2) =~= rest);
    } else if (c as u32) <= 0x1f {
        let x = c as u32;
        lemma_hex_digit_value((x / 16) as nat);
        lemma_hex_digit_value((x % 16) as nat);
        assert(t.skip(6) =~= rest);
        assert(hex_digit_value('0') == 0);
        let v = hex_digit_value(t[2]) * 4096 + hex_digit_value(t[3]) * 256 + hex_digit_value(t[4])
            * 16 + hex_digit_value(t[5]);
        assert(v == x);
        assert((v as char) == c);
    } else {
        assert(t.skip(1) =~= rest);
    }
}

/// Inside a JSON string no raw control character appears, and reading the
/// escapes back gives the original text.
pub proof fn lemma_escaped_text_reads_back(s: Seq<char>)
    ensures
        unescaped(escaped_text(s)) == s,
        forall|i: int| 0 <= i < escaped_text(s).len() ==> (#[trigger] escaped_text(s)[i]) as u32 > 0x1f,
    decreases s.len(),
{
    if s.len() > 0 {
        let rest = s.skip(1);
        assert(s =~= seq![s[0]] + rest);
        lemma_escaped_concat(seq![s[0]], rest);
        let one = seq![s[0]];
        assert(escaped_text(one) =~= escaped_char(s[0])) by {
            assert(one.drop_last() =~= Seq::<char>::empty());
            assert(escaped_text(one.drop_last()) =~= Seq::<char>::empty());
            assert(one.last() == s[0]);
            assert(escaped_text(one) == escaped_text(one.drop_last()) + escaped_char(one.last()));
        }
        lemma_escaped_text_reads_back(rest);
        lemma_unescape_char(s[0], escaped_text(rest));
        let e = escaped_char(s[0]);
        assert forall|i: int| 0 <= i < escaped_text(s).len() implies (#[trigger] escaped_text(s)[i]) as u32
            > 0x1f by {
            if i < e.len() {
                assert(escaped_text(s)[i] == e[i]);
            } else {
                assert(escaped_text(s)[i] == escaped_text(rest)[i - e.len()]);
            }
        }
    } else {
        assert(escaped_text(s) =~= Seq::<char>::empty());
    }
}

/// A JSON string text holds no raw control character; between its quotes
/// it reads back as the string.
pub proof fn lemma_string_text(s: Seq<char>)
    ensures
        forall|i: int| 0 <= i < string_text(s).len() ==> (#[trigger] string_text(s)[i]) as u32 > 0x1f,
        string_text(s).subrange(1, string_text(s).len() - 1) == escaped_text(s),
        unescaped(string_text(s).subrange(1, string_text(s).len() - 1)) == s,
{
    lemma_escaped_text_reads_back(s);
    let t = string_text(s);
    let e = escaped_text(s);
    assert(t.subrange(1, t.len() - 1) =~= e);
    assert forall|i: int| 0 <= i < t.len() implies (#[trigger] t[i]) as u32 > 0x1f by {
        if 1 <= i < t.len() - 1 {
            assert(t[i] == e[i - 1]);
        }
    }
}

/// No character of `t` is a control character.
pub open spec fn no_control(t: Seq<char>) -> bool {
    forall|i: int| 0 <= i < t.len() ==> (#[trigger] t[i]) as u32 > 0x1f
}

/// Every number in a value is written without control characters, as
/// number texts are.
pub open spec fn plain_numbers(v: JsonView) -> bool
    decreases v,
{
    match v {
        JsonView::Number(n) => no_control(n),
        JsonView::Array(vs) => forall|i: int| 0 <= i < vs.len() ==> plain_numbers(#[trigger] vs[i]),
        JsonView::Object(ps) => forall|i: int| 0 <= i < ps.len() ==> plain_numbers(#[trigger] ps[i].1),
        _ => true,
    }
}

proof fn lemma_no_control_concat(a: Seq<char>, b: Seq<char>)
    requires
        no_control(a),
        no_control(b),
    ensures
        no_control(a + b),
{
    assert forall|i: int| 0 <= i < (a + b).len() implies (#[trigger] (a + b)[i]) as u32 > 0x1f by {
        if i < a.len() {
            assert((a + b)[i] == a[i]);
        } else {
            assert((a + b)[i] == b[i - a.len()]);
        }
    }
}

/// The JSON text of a value holds no raw control character: every control
/// character inside a string is escaped.
pub proof fn lemma_json_text_no_control(v: JsonView)
    requires
        plain_numbers(v),
    ensures
        no_control(json_text(v)),
    decreases v, 0nat,
{
    match v {
        JsonView::Null => {
            reveal_strlit("null");
        },
        JsonView::Bool(b) => {
            reveal_strlit("true");
            reveal_strlit("false");
        },
        JsonView::Number(n) => {},
        JsonView::Str(t) => {
            lemma_string_text(t);
        },
        JsonView::Array(vs) => {
            lemma_items_no_control(vs);
            lemma_no_control_concat(seq!['['], items_text(vs));
            lemma_no_control_concat(seq!['['] + items_text(vs), seq![']']);
        },
        JsonView::Object(ps) => {
            lemma_members_no_control(ps);
            lemma_no_control_concat(seq!['{'], members_text(ps));
            lemma_no_control_concat(seq!['{'] + members_text(ps), seq!['}']);
        },
    }
}

proof fn lemma_items_no_control(vs: Seq<JsonView>)
    requires
        forall|i: int| 0 <= i < vs.len() ==> plain_numbers(#[trigger] vs[i]),
    ensures
        no_control(items_text(vs)),
    decreases vs, 1nat,
{
    if vs.len() == 1 {
        lemma_json_text_no_control(vs[0]);
    } else if vs.len() > 1 {
        let front = vs.drop_last();
        assert forall|i: int| 0 <= i < front.len() implies plain_numbers(#[trigger] front[i]) by {
            assert(front[i] == vs[i]);
        }
        lemma_items_no_control(front);
        lemma_json_text_no_control(vs.last());
        lemma_no_control_concat(items_text(front), seq![',']);
        assert(items_text(front).push(',') == items_text(front) + seq![',']);
        lemma_no_control_concat(items_text(front).push(','), json_text(vs.last()));
    }
}

proof fn lemma_members_no_control(ps: Seq<(Seq<char>, JsonView)>)
    requires
        forall|i: int| 0 <= i < ps.len() ==> plain_numbers(#[trigger] ps[i].1),
    ensures
        no_control(members_text(ps)),
    decreases ps, 1nat,
{
    if ps.len() >= 1 {
        let last = ps.last();
        lemma_string_text(last.0);
        lemma_json_text_no_control(last.1);
        let key = string_text(last.0).push(':');
        lemma_no_control_concat(string_text(last.0), seq![':']);
        assert(key == string_text(last.0) + seq![':']);
        lemma_no_control_concat(key, json_text(last.1));
        if ps.len() > 1 {
            let front = ps.drop_last();
            assert forall|i: int| 0 <= i < front.len() implies plain_numbers(#[trigger] front[i].1) by {
                assert(front[i] == ps[i]);
            }
            lemma_members_no_control(front);
            lemma_no_control_concat(members_text(front), seq![',']);
            assert(members_text(front).push(',') == members_text(front) + seq![',']);
            lemma_no_control_concat(members_text(front).push(','), key + json_text(last.1));
            assert(members_text(ps) == members_text(front).push(',') + (key + json_text(last.1)));
        } else {
            assert(last == ps[0]);
        }
    }
}

fn hex_char(n: u32) -> (c: char)
    requires
        n < 16,
    ensures
        c == hex_digit(n as nat),
{
    if n < 10 {
        (n + ('0' as u32)) as u8 as char
    } else {
        (n - 10 + ('a' as u32)) as u8 as char
    }
}

/// Writes a string as JSON text.
pub fn global_json_write_string(output: &mut String, value: &str)
    ensures
        final(output)@ == old(output)@ + string_text(value@),
{
    let v = chars_of(value);
    output.push('"');
    let ghost start = output@;
    let mut i: usize = 0;
    while i < v.len()
        invariant
            i <= v.len(),
            output@ == start + escaped_text(v@.take(i as int)),
        decreases v.len() - i,
    {
        let ch = v[i];
        let ghost before = output@;
        if ch == '"' {
            output.push('\\');
            output.push('"');
        } else if ch == '\\' {
            output.push('\\');
            output.push('\\');
        } else if ch == '\u{08}' {
            output.push('\\');
            output.push('b');
        } else if ch == '\u{0c}' {
            output.push('\\');
            output.push('f');
        } else if ch == '\n' {
            output.push('\\');
            output.push('n');
        } else if ch == '\r' {
            output.push('\\');
            output.push('r');
        } else if ch == '\t' {
            output.push('\\');
            output.push('t');
        } else if (ch as u32) <= 0x1f {
            let code = ch as u32;
            output.push('\\');
            output.push('u');
            output.push('0');
            output.push('0');
            output.push(hex_char(code / 16));
            output.push(hex_char(code % 16));
        } else {
            output.push(ch);
        }
        proof {
            assert(output@ =~= before + escaped_char(ch));
            assert(v@.take(i + 1).drop_last() == v@.take(i as int));
            assert(v@.take(i + 1).last() == ch);
        }
        i += 1;
    }
    assert(v@.take(v.len() as int) == v@);
    output.push('"');
}

/// Writes a value as JSON text.
pub fn global_json_write_value(output: &mut String, value: &JsonValue)
    ensures
        final(output)@ == old(output)@ + json_text(value@),
    decreases value,
{
    match value {
        JsonValue::Null => {
            let mut v: Vec<char> = Vec::new();
            extend_str(&mut v, "null");
            crate::text::push_chars(output, &v);
        },
        JsonValue::Bool(b) => {
            let mut v: Vec<char> = Vec::new();
            if *b {
                extend_str(&mut v, "true");
            } else {
                extend_str(&mut v, "false");
            }
            crate::text::push_chars(output, &v);
        },
        JsonValue::Number(n) => {
            crate::text::push_chars(output, &chars_of(n.as_str()));
        },
        JsonValue::Str(s) => {
            global_json_write_string(output, s.as_str());
        },
        JsonValue::Array(vs) => {
            output.push('[');
            let ghost start = output@;
            let ghost views = json_views(vs@);
            proof {
                lemma_json_views(vs@);
            }
            let mut i: usize = 0;
            while i < vs.len()
                invariant
                    i <= vs.len(),
                    *value == JsonValue::Array(*vs),
                    views == json_views(vs@),
                    views.len() == vs@.len(),
                    forall|k: int| 0 <= k < vs@.len() ==> #[trigger] views[k] == json_view(vs@[k]),
                    output@ == start + items_text(views.take(i as int)),
                decreases vs.len() - i,
            {
                if i != 0 {
                    output.push(',');
                }
                proof {
                    assert(decreases_to!(*value => (*value)->Array_0));
                    assert((*value)->Array_0 == *vs);
                    assert(decreases_to!(*vs => vs@));
                    assert(decreases_to!(vs@ => vs@[i as int]));
                }
                global_json_write_value(output, &vs[i]);
                proof {
                    let now = views.take(i + 1);
                    assert(now.drop_last() == views.take(i as int));
                    assert(now.last() == json_view(vs@[i as int]));
                    if i == 0 {
                        assert(now.len() == 1);
                    }
                }
                i += 1;
            }
            assert(views.take(vs.len() as int) == views);
            output.push(']');
        },
        JsonValue::Object(ps) => {
            output.push('{');
            let ghost start = output@;
            let ghost views = member_views(ps@);
            proof {
                lemma_member_views(ps@);
            }
            let mut i: usize = 0;
            while i < ps.len()
                invariant
                    i <= ps.len(),
                    *value == JsonValue::Object(*ps),
                    views == member_views(ps@),
                    views.len() == ps@.len(),
                    forall|k: int| 0 <= k < ps@.len() ==> #[trigger] views[k] == (ps@[k].0@, json_view(ps@[k].1)),
                    output@ == start + members_text(views.take(i as int)),
                decreases ps.len() - i,
            {
                if i != 0 {
                    output.push(',');
                }
                global_json_write_string(output, ps[i].0.as_str());
                output.push(':');
                proof {
                    assert(decreases_to!(*value => (*value)->Object_0));
                    assert((*value)->Object_0 == *ps);
                    assert(decreases_to!(*ps => ps@));
                    assert(decreases_to!(ps@ => ps@[i as int]));
                    assert(decreases_to!(ps@[i as int] => ps@[i as int].1));
                }
                global_json_write_value(output, &ps[i].1);
                proof {
                    let now = views.take(i + 1);
                    assert(now.drop_last() == views.take(i as int));
                    assert(now.last() == (ps@[i as int].0@, json_view(ps@[i as int].1)));
                    if i == 0 {
                        assert(now.len() == 1);
                    }
                }
                i += 1;
            }
            assert(views.take(ps.len() as int) == views);
            output.push('}');
        },
    }
}

/// A value as JSON text.
pub fn global_json_value_to_string(value: &JsonValue) -> (r: String)
    ensures
        r@ == json_text(value@),
{
    let mut output = String::new();
    global_json_write_value(&mut output, value);
    output
}

// ---------------------------------------------------------------------------
// Reading and building objects
// ---------------------------------------------------------------------------
/// The value of the first member with the key.
pub open spec fn member_get(ps: Seq<(Seq<char>, JsonView)>, key: Seq<char>) -> Option<JsonView>
    decreases ps.len(),
{
    if ps.len() == 0 {
        None
    } else if ps[0].0 == key {
        Some(ps[0].1)
    } else {
        member_get(ps.drop_first(), key)
    }
}

/// `Value::get`: an object's member, nothing for other values.
pub open spec fn json_get(v: JsonView, key: Seq<char>) -> Option<JsonView> {
    match v {
        JsonView::Object(ps) => member_get(ps, key),
        _ => None,
    }
}

/// An object's member by key.
pub fn json_member<'a>(value: &'a JsonValue, key: &str) -> (r: Option<&'a JsonValue>)
    ensures
        match r {
            Some(x) => json_get(value@, key@) == Some(x@),
            None => json_get(value@, key@) is None,
        },
{
    match value {
        JsonValue::Object(ps) => {
            let ghost views = member_views(ps@);
            proof {
                lemma_member_views(ps@);
            }
            let k = chars_of(key);
            let mut i: usize = 0;
            while i < ps.len()
                invariant
                    i <= ps.len(),
                    *value == JsonValue::Object(*ps),
                    views == member_views(ps@),
                    views.len() == ps@.len(),
                    forall|j: int| 0 <= j < ps@.len() ==> #[trigger] views[j] == (ps@[j].0@, json_view(ps@[j].1)),
                    k@ == key@,
                    member_get(views, key@) == member_get(views.skip(i as int), key@),
                decreases ps.len() - i,
            {
                assert(views.skip(i as int)[0] == views[i as int]);
                assert(views.skip(i as int).drop_first() == views.skip(i + 1));
                if crate::text::chars_eq(&chars_of(ps[i].0.as_str()), &k) {
                    return Some(&ps[i].1);
                }
                i += 1;
            }
            None
        },
        _ => None,
    }
}

/// A copy of a value.
pub fn json_clone(value: &JsonValue) -> (r: JsonValue)
    ensures
        r@ == value@,
    decreases value,
{
    match value {
        JsonValue::Null => JsonValue::Null,
        JsonValue::Bool(b) => JsonValue::Bool(*b),
        JsonValue::Number(n) => JsonValue::Number(n.clone()),
        JsonValue::Str(s) => JsonValue::Str(s.clone()),
        JsonValue::Array(vs) => {
            let mut out: Vec<JsonValue> = Vec::new();
            let mut i: usize = 0;
            proof {
                lemma_json_views(vs@);
            }
            while i < vs.len()
                invariant
                    i <= vs.len(),
                    *value == JsonValue::Array(*vs),
                    json_views(out@) == json_views(vs@).take(i as int),
                    json_views(vs@).len() == vs@.len(),
                    forall|k: int| 0 <= k < vs@.len() ==> #[trigger] json_views(vs@)[k] == json_view(vs@[k]),
                decreases vs.len() - i,
            {
                proof {
                    assert(decreases_to!(*value => (*value)->Array_0));
                    assert((*value)->Array_0 == *vs);
                    assert(decreases_to!(*vs => vs@));
                    assert(decreases_to!(vs@ => vs@[i as int]));
                }
                let c = json_clone(&vs[i]);
                let ghost before = out@;
                out.push(c);
                proof {
                    assert(out@.drop_last() == before);
                    assert(json_views(out@) =~= json_views(vs@).take(i + 1));
                }
                i += 1;
            }
            assert(json_views(vs@).take(vs.len() as int) == json_views(vs@));
            JsonValue::Array(out)
        },
        JsonValue::Object(ps) => {
            let mut out: Vec<(String, JsonValue)> = Vec::new();
            let mut i: usize = 0;
            proof {
                lemma_member_views(ps@);
            }
            while i < ps.len()
                invariant
                    i <= ps.len(),
                    *value == JsonValue::Object(*ps),
                    member_views(out@) == member_views(ps@).take(i as int),
                    member_views(ps@).len() == ps@.len(),
                    forall|k: int| 0 <= k < ps@.len() ==> #[trigger] member_views(ps@)[k] == (ps@[k].0@, json_view(ps@[k].1)),
                decreases ps.len() - i,
            {
                proof {
                    assert(decreases_to!(*value => (*value)->Object_0));
                    assert((*value)->Object_0 == *ps);
                    assert(decreases_to!(*ps => ps@));
                    assert(decreases_to!(ps@ => ps@[i as int]));
                    assert(decreases_to!(ps@[i as int] => ps@[i as int].1));
                }
                let c = json_clone(&ps[i].1);
                let key = ps[i].0.clone();
                let ghost before = out@;
                out.push((key, c));
                proof {
                    assert(out@.drop_last() == before);
                    assert(member_views(out@) =~= member_views(ps@).take(i + 1));
                }
                i += 1;
            }
            assert(member_views(ps@).take(ps.len() as int) == member_views(ps@));
            JsonValue::Object(out)
        },
    }
}

/// `serde_json::Map::insert`: members stay in key order; a member with the
/// same key has its value replaced.
pub open spec fn member_insert(ps: Seq<(Seq<char>, JsonView)>, key: Seq<char>, v: JsonView) -> Seq<(Seq<char>, JsonView)>
    decreases ps.len(),
{
    if ps.len() == 0 {
        seq![(key, v)]
    } else if ps[0].0 == key {
        seq![(key, v)] + ps.drop_first()
    } else if lex_lt(key, ps[0].0) {
        seq![(key, v)] + ps
    } else {
        seq![ps[0]] + member_insert(ps.drop_first(), key, v)
    }
}

/// After a member is inserted, the object's member at that key is the new
/// value.
pub proof fn lemma_get_inserted(ps: Seq<(Seq<char>, JsonView)>, key: Seq<char>, v: JsonView)
    ensures
        member_get(member_insert(ps, key, v), key) == Some(v),
    decreases ps.len(),
{
    let r = member_insert(ps, key, v);
    if ps.len() == 0 {
        assert(r[0] == (key, v));
    } else if ps[0].0 == key || lex_lt(key, ps[0].0) {
        assert(r[0] == (key, v));
    } else {
        lemma_get_inserted(ps.drop_first(), key, v);
        assert(r[0] == ps[0]);
        assert(r.drop_first() =~= member_insert(ps.drop_first(), key, v));
    }
}

/// Inserting a member leaves the member at every other key as it was.
pub proof fn lemma_get_other(ps: Seq<(Seq<char>, JsonView)>, key: Seq<char>, v: JsonView, k: Seq<char>)
    requires
        k != key,
    ensures
        member_get(member_insert(ps, key, v), k) == member_get(ps, k),
    decreases ps.len(),
{
    let r = member_insert(ps, key, v);
    if ps.len() == 0 {
        assert(r[0] == (key, v));
        assert(r.drop_first() =~= Seq::<(Seq<char>, JsonView)>::empty());
    } else if ps[0].0 == key {
        assert(r[0] == (key, v));
        assert(r.drop_first() =~= ps.drop_first());
    } else if lex_lt(key, ps[0].0) {
        assert(r[0] == (key, v));
        assert(r.drop_first() =~= ps);
    } else {
        assert(r[0] == ps[0]);
        assert(r.drop_first() =~= member_insert(ps.drop_first(), key, v));
        if ps[0].0 != k {
            lemma_get_other(ps.drop_first(), key, v, k);
        }
    }
}

/// Looking a key up in an object with one more member at the end finds an
/// earlier member with that key first, else the new one.
pub proof fn lemma_get_push(ps: Seq<(Seq<char>, JsonView)>, e: (Seq<char>, JsonView), k: Seq<char>)
    ensures
        member_get(ps.push(e), k) == match member_get(ps, k) {
            Some(v) => Some(v),
            None => if e.0 == k {
                Some(e.1)
            } else {
                None
            },
        },
    decreases ps.len(),
{
    if ps.len() > 0 {
        assert(ps.push(e)[0] == ps[0]);
        assert(ps.push(e).drop_first() =~= ps.drop_first().push(e));
        if ps[0].0 != k {
            lemma_get_push(ps.drop_first(), e, k);
        }
    } else {
        assert(ps.push(e)[0] == e);
        assert(ps.push(e).drop_first() =~= Seq::<(Seq<char>, JsonView)>::empty());
    }
}

/// Inserts a member in key order, replacing one with the same key.
pub fn object_insert(ps: &mut Vec<(String, JsonValue)>, key: String, value: JsonValue)
    ensures
        member_views(final(ps)@) == member_insert(member_views(old(ps)@), key@, value@),
{
    proof {
        lemma_member_views(ps@);
    }
    let ghost views = member_views(ps@);
    let k = chars_of(key.as_str());
    let mut j: usize = 0;
    while j < ps.len() && crate::text::text_less(&chars_of(ps[j].0.as_str()), &k)
        invariant
            j <= ps.len(),
            views == member_views(ps@),
            views.len() == ps@.len(),
            forall|i: int| 0 <= i < ps@.len() ==> #[trigger] views[i] == (ps@[i].0@, json_view(ps@[i].1)),
            k@ == key@,
            forall|i: int| 0 <= i < j ==> lex_lt(#[trigger] views[i].0, key@),
        decreases ps.len() - j,
    {
        j += 1;
    }
    proof {
        lemma_member_insert_skip(views, key@, value@, j as int);
    }
    let same = j < ps.len() && crate::text::chars_eq(&chars_of(ps[j].0.as_str()), &k);
    let ghost before = ps@;
    if same {
        ps.set(j, (key, value));
        proof {
            lemma_member_views(ps@);
            crate::text::lemma_lex_irreflexive(key@);
            assert(member_views(ps@) =~= views.take(j as int) + (seq![(key@, value@)] + views.skip(j as int).drop_first()));
        }
    } else {
        ps.insert(j, (key, value));
        proof {
            before.insert_ensures(j as int, (key, value));
            lemma_member_views(ps@);
            if j < views.len() {
                crate::text::lemma_lex_total(key@, views[j as int].0);
            }
            assert forall|i: int| 0 <= i < ps@.len() implies #[trigger] member_views(ps@)[i] == (views.take(j as int) + (seq![(key@, value@)] + views.skip(j as int)))[i] by {
                if i < j {
                } else if i == j {
                } else {
                    assert(ps@[i] == before[i - 1]);
                }
            }
            assert(member_views(ps@) =~= views.take(j as int) + (seq![(key@, value@)] + views.skip(j as int)));
        }
    }
}

/// Members whose keys come before the new key are kept in front of it.
pub proof fn lemma_member_insert_skip(ps: Seq<(Seq<char>, JsonView)>, key: Seq<char>, v: JsonView, j: int)
    requires
        0 <= j <= ps.len(),
        forall|i: int| 0 <= i < j ==> lex_lt(#[trigger] ps[i].0, key),
    ensures
        member_insert(ps, key, v) == ps.take(j) + member_insert(ps.skip(j), key, v),
    decreases j,
{
    if j > 0 {
        let d = ps.drop_first();
        assert forall|i: int| 0 <= i < j - 1 implies lex_lt(#[trigger] d[i].0, key) by {
            assert(d[i] == ps[i + 1]);
        }
        lemma_member_insert_skip(d, key, v, j - 1);
        assert(lex_lt(ps[0].0, key));
        crate::text::lemma_lex_irreflexive(key);
        if ps[0].0 == key {
            assert(false);
        }
        if lex_lt(key, ps[0].0) {
            crate::text::lemma_lex_transitive(key, ps[0].0, key);
        }
        assert(d.skip(j - 1) == ps.skip(j));
        assert(ps.take(j) == seq![ps[0]] + d.take(j - 1));
    } else {
        assert(ps.take(0) + member_insert(ps.skip(0), key, v) == member_insert(ps, key, v));
    }
}

} // verus!
