//! Translation lookups: the active language, the built-in English fallback,
//! placeholder substitution, and the record of keys that had no translation.

use vstd::prelude::*;
use crate::text::{
    chars_of, extend_chars, extend_str, is_blank, lex_lt, lemma_lex_irreflexive,
    lemma_lex_total, lemma_lex_transitive, string_of, text_less, trimmed,
};

verus! {

broadcast use {vstd::seq_lib::group_seq_properties, vstd::seq_lib::group_to_multiset_ensures};

/// The language that is always available and that every lookup falls back to.
pub open spec fn default_language() -> Seq<char> {
    "en-US"@
}

/// A locale file: its code, its display name and its translations.
pub struct LocaleFile {
    pub locale: String,
    pub name: String,
    pub strings: Vec<(String, String)>,
}

/// A locale as values: code, display name, and (key, translation) pairs.
pub type LocaleView = (Seq<char>, Seq<char>, Seq<(Seq<char>, Seq<char>)>);

/// The character contents of each translation pair.
pub open spec fn pair_views(ss: Seq<(String, String)>) -> Seq<(Seq<char>, Seq<char>)> {
    ss.map_values(|p: (String, String)| (p.0@, p.1@))
}

impl View for LocaleFile {
    type V = LocaleView;

    open spec fn view(&self) -> LocaleView {
        (self.locale@, self.name@, pair_views(self.strings@))
    }
}

/// No key occurs twice among the translations.
pub open spec fn keys_distinct(ss: Seq<(Seq<char>, Seq<char>)>) -> bool {
    forall|i: int, j: int| 0 <= i < j < ss.len() ==> ss[i].0 != ss[j].0
}

/// Index of the first translation at or after `i` whose key is `key`, or the length.
pub open spec fn key_from(ss: Seq<(Seq<char>, Seq<char>)>, key: Seq<char>, i: int) -> int
    decreases ss.len() - i,
{
    if i < 0 || i >= ss.len() {
        ss.len() as int
    } else if ss[i].0 == key {
        i
    } else {
        key_from(ss, key, i + 1)
    }
}

/// The translation of `key` in a locale, if there is one.
pub open spec fn lookup(f: LocaleView, key: Seq<char>) -> Option<Seq<char>> {
    let i = key_from(f.2, key, 0);
    if 0 <= i < f.2.len() {
        Some(f.2[i].1)
    } else {
        None
    }
}

/// A usable locale: no translation key occurs twice.
pub open spec fn locale_wf(f: LocaleView) -> bool {
    keys_distinct(f.2)
}

impl LocaleFile {
    /// A copy of the file.
    pub fn duplicate(&self) -> (r: LocaleFile)
        ensures
            r@ == self@,
    {
        let mut strings: Vec<(String, String)> = Vec::new();
        let mut i: usize = 0;
        while i < self.strings.len()
            invariant
                i <= self.strings.len(),
                strings@ == self.strings@.take(i as int),
            decreases self.strings.len() - i,
        {
            let pair = (self.strings[i].0.clone(), self.strings[i].1.clone());
            strings.push(pair);
            i += 1;
            assert(self.strings@.take(i as int) == self.strings@.take(i - 1).push(
                self.strings@[i - 1],
            ));
        }
        assert(self.strings@.take(self.strings.len() as int) == self.strings@);
        LocaleFile { locale: self.locale.clone(), name: self.name.clone(), strings }
    }
}

/// The value of each locale file.
pub open spec fn locale_views(ls: Seq<LocaleFile>) -> Seq<LocaleView> {
    ls.map_values(|f: LocaleFile| f@)
}

/// Index of the first locale at or after `i` whose code is `code`, or the length.
pub open spec fn locale_from(ls: Seq<LocaleView>, code: Seq<char>, i: int) -> int
    decreases ls.len() - i,
{
    if i < 0 || i >= ls.len() {
        ls.len() as int
    } else if ls[i].0 == code {
        i
    } else {
        locale_from(ls, code, i + 1)
    }
}

pub open spec fn locale_index(ls: Seq<LocaleView>, code: Seq<char>) -> int {
    locale_from(ls, code, 0)
}

/// No locale code occurs twice.
pub open spec fn codes_distinct(ls: Seq<LocaleView>) -> bool {
    forall|i: int, j: int| 0 <= i < j < ls.len() ==> ls[i].0 != ls[j].0
}

/// The character contents of each string.
pub open spec fn string_views(v: Seq<String>) -> Seq<Seq<char>> {
    v.map_values(|s: String| s@)
}

/// Strictly increasing in `String` order: a sorted set.
pub open spec fn strictly_sorted(s: Seq<Seq<char>>) -> bool {
    forall|i: int, j: int| 0 <= i < j < s.len() ==> lex_lt(s[i], s[j])
}

/// Index of the first element at or after `i` that does not come before `k`.
pub open spec fn first_not_below(m: Seq<Seq<char>>, k: Seq<char>, i: int) -> int
    decreases m.len() - i,
{
    if i < 0 || i >= m.len() {
        m.len() as int
    } else if lex_lt(m[i], k) {
        first_not_below(m, k, i + 1)
    } else {
        i
    }
}

/// Adding `k` to a sorted set (`BTreeSet::insert`).
pub open spec fn sorted_insert(m: Seq<Seq<char>>, k: Seq<char>) -> Seq<Seq<char>> {
    let p = first_not_below(m, k, 0);
    if p < m.len() && m[p] == k {
        m
    } else {
        m.insert(p, k)
    }
}

pub proof fn lemma_first_not_below(m: Seq<Seq<char>>, k: Seq<char>, i: int)
    requires
        0 <= i <= m.len(),
        strictly_sorted(m),
    ensures
        i <= first_not_below(m, k, i) <= m.len(),
        forall|j: int| i <= j < first_not_below(m, k, i) ==> lex_lt(#[trigger] m[j], k),
        forall|j: int| first_not_below(m, k, i) <= j < m.len() ==> !lex_lt(#[trigger] m[j], k),
    decreases m.len() - i,
{
    if i < m.len() {
        if lex_lt(m[i], k) {
            lemma_first_not_below(m, k, i + 1);
        } else {
            assert forall|j: int| i <= j < m.len() implies !lex_lt(#[trigger] m[j], k) by {
                if j > i && lex_lt(m[j], k) {
                    lemma_lex_transitive(m[i], m[j], k);
                }
            }
        }
    }
}

/// Adding a key to a sorted set lengthens it by one exactly when the key
/// was not in it.
pub proof fn lemma_sorted_insert_len(m: Seq<Seq<char>>, k: Seq<char>)
    requires
        strictly_sorted(m),
    ensures
        sorted_insert(m, k).len() == m.len() + if m.contains(k) {
            0nat
        } else {
            1nat
        },
{
    let p = first_not_below(m, k, 0);
    lemma_first_not_below(m, k, 0);
    if !(p < m.len() && m[p] == k) {
        assert(!m.contains(k)) by {
            if m.contains(k) {
                let i = choose|i: int| 0 <= i < m.len() && m[i] == k;
                lemma_lex_irreflexive(k);
                if i > p {
                    lemma_lex_total(m[p], k);
                    assert(lex_lt(m[p], m[i]));
                    lemma_lex_transitive(k, m[p], m[i]);
                }
            }
        }
    }
}

/// Adding a key keeps the set sorted, and adds exactly that key.
pub proof fn lemma_sorted_insert(m: Seq<Seq<char>>, k: Seq<char>)
    requires
        strictly_sorted(m),
    ensures
        strictly_sorted(sorted_insert(m, k)),
        sorted_insert(m, k).contains(k),
        forall|x: Seq<char>| #[trigger] sorted_insert(m, k).contains(x) <==> (m.contains(x) || x
            == k),
{
    let p = first_not_below(m, k, 0);
    lemma_first_not_below(m, k, 0);
    if p < m.len() && m[p] == k {
        assert(m.contains(k)) by {
            assert(m[p] == k);
        }
    } else {
        let r = m.insert(p, k);
        if p < m.len() {
            lemma_lex_total(m[p], k);
        }
        assert forall|i: int, j: int| 0 <= i < j < r.len() implies lex_lt(r[i], r[j]) by {
            if j < p {
                assert(r[i] == m[i] && r[j] == m[j]);
            } else if j == p {
                assert(r[i] == m[i]);
            } else if i == p {
                assert(r[j] == m[j - 1]);
                assert(lex_lt(k, m[p])) by {
                    lemma_lex_total(m[p], k);
                }
                if j - 1 > p {
                    lemma_lex_transitive(k, m[p], m[j - 1]);
                }
            } else if i < p {
                assert(r[i] == m[i] && r[j] == m[j - 1]);
            } else {
                assert(r[i] == m[i - 1] && r[j] == m[j - 1]);
            }
        }
        assert(r[p] == k);
        assert forall|x: Seq<char>| #[trigger] r.contains(x) <==> (m.contains(x) || x == k) by {
            if r.contains(x) {
                let i = choose|i: int| 0 <= i < r.len() && r[i] == x;
                if i < p {
                    assert(m[i] == x);
                } else if i > p {
                    assert(m[i - 1] == x);
                }
            }
            if m.contains(x) {
                let i = choose|i: int| 0 <= i < m.len() && m[i] == x;
                if i < p {
                    assert(r[i] == x);
                } else {
                    assert(r[i + 1] == x);
                }
            }
        }
    }
}

/// Replaces every non-overlapping occurrence of `pat`, from the left (`str::replace`).
pub open spec fn replace_all(s: Seq<char>, pat: Seq<char>, rep: Seq<char>) -> Seq<char>
    decreases s.len(),
{
    if pat.len() == 0 || s.len() < pat.len() {
        s
    } else if s.take(pat.len() as int) == pat {
        rep + replace_all(s.skip(pat.len() as int), pat, rep)
    } else {
        seq![s[0]] + replace_all(s.drop_first(), pat, rep)
    }
}

/// The placeholder that stands for a named value: `{name}`.
pub open spec fn placeholder(name: Seq<char>) -> Seq<char> {
    seq!['{'] + name + seq!['}']
}

/// Substitutes each named value in turn.
pub open spec fn substitute_all(text: Seq<char>, values: Seq<(Seq<char>, Seq<char>)>) -> Seq<char>
    decreases values.len(),
{
    if values.len() == 0 {
        text
    } else {
        let last = values.last();
        replace_all(substitute_all(text, values.drop_last()), placeholder(last.0), last.1)
    }
}

/// Whether `v[i..]` starts with `pat`.
fn starts_at(v: &Vec<char>, i: usize, pat: &Vec<char>) -> (r: bool)
    requires
        i <= v.len(),
    ensures
        r == (v@.len() - i >= pat@.len() && v@.skip(i as int).take(pat@.len() as int) == pat@),
{
    if v.len() - i < pat.len() {
        return false;
    }
    let mut k: usize = 0;
    while k < pat.len()
        invariant
            i + pat.len() <= v.len(),
            k <= pat.len(),
            forall|j: int| 0 <= j < k ==> v@[i + j] == pat@[j],
        decreases pat.len() - k,
    {
        if v[i + k] != pat[k] {
            assert(v@.skip(i as int).take(pat@.len() as int)[k as int] != pat@[k as int]);
            return false;
        }
        k += 1;
    }
    assert(v@.skip(i as int).take(pat@.len() as int) =~= pat@);
    true
}

/// `str::replace` for a non-empty pattern.
pub fn replace_chars(v: &Vec<char>, pat: &Vec<char>, rep: &Vec<char>) -> (r: Vec<char>)
    requires
        pat.len() > 0,
    ensures
        r@ == replace_all(v@, pat@, rep@),
{
    let mut out: Vec<char> = Vec::new();
    let mut i: usize = 0;
    while i < v.len()
        invariant
            pat.len() > 0,
            i <= v.len(),
            out@ + replace_all(v@.skip(i as int), pat@, rep@) == replace_all(v@, pat@, rep@),
        decreases v.len() - i,
    {
        let ghost rest = v@.skip(i as int);
        if starts_at(v, i, pat) {
            extend_chars(&mut out, rep);
            assert(rest.skip(pat@.len() as int) == v@.skip(i + pat@.len()));
            i += pat.len();
        } else {
            out.push(v[i]);
            assert(rest.drop_first() == v@.skip(i + 1));
            assert(rest.len() < pat@.len() || rest.take(pat@.len() as int) != pat@);
            proof {
                if rest.len() < pat@.len() {
                    assert(replace_all(rest, pat@, rep@) == rest);
                    assert(rest == seq![rest[0]] + rest.drop_first());
                    assert(replace_all(rest.drop_first(), pat@, rep@) == rest.drop_first());
                }
            }
            i += 1;
        }
    }
    assert(v@.skip(v.len() as int).len() == 0);
    out
}

/// The state of the translator.
pub struct Localization {
    fallback: LocaleFile,
    locales: Vec<LocaleFile>,
    current_language: String,
    diagnostics: Vec<String>,
    missing_keys: Vec<String>,
    locale_dir: String,
    development: bool,
}

impl Localization {
    pub closed spec fn fallback_file(&self) -> LocaleView {
        self.fallback@
    }

    pub closed spec fn locale_list(&self) -> Seq<LocaleView> {
        locale_views(self.locales@)
    }

    pub closed spec fn current(&self) -> Seq<char> {
        self.current_language@
    }

    pub closed spec fn diagnostic_lines(&self) -> Seq<Seq<char>> {
        string_views(self.diagnostics@)
    }

    /// The keys that had no translation in the active language, in order.
    pub closed spec fn missing(&self) -> Seq<Seq<char>> {
        string_views(self.missing_keys@)
    }

    pub closed spec fn directory(&self) -> Seq<char> {
        self.locale_dir@
    }

    pub closed spec fn is_development(&self) -> bool {
        self.development
    }

    /// Locale codes are distinct, translation keys are distinct, and the
    /// missing keys form a sorted set.
    pub open spec fn wf(&self) -> bool {
        &&& locale_wf(self.fallback_file())
        &&& forall|i: int|
            0 <= i < self.locale_list().len() ==> locale_wf(#[trigger] self.locale_list()[i])
        &&& codes_distinct(self.locale_list())
        &&& strictly_sorted(self.missing())
    }

    /// The translations of the active language, if it is loaded.
    pub open spec fn current_file(&self) -> Option<LocaleView> {
        let i = locale_index(self.locale_list(), self.current());
        if 0 <= i < self.locale_list().len() {
            Some(self.locale_list()[i])
        } else {
            None
        }
    }

    /// What `tr` gives for `key`.
    pub open spec fn translation(&self, key: Seq<char>) -> Seq<char> {
        match self.current_file() {
            Some(f) if lookup(f, key) is Some => lookup(f, key)->0,
            _ => match lookup(self.fallback_file(), key) {
                Some(v) => v,
                None => if self.is_development() {
                    seq!['[', '['] + key + seq![']', ']']
                } else {
                    key
                },
            },
        }
    }

    /// The missing keys once `tr` has looked up `key`.
    pub open spec fn missing_after(&self, key: Seq<char>) -> Seq<Seq<char>> {
        match self.current_file() {
            Some(f) if lookup(f, key) is Some => self.missing(),
            _ => if lookup(self.fallback_file(), key) is Some && self.current()
                == default_language() {
                self.missing()
            } else {
                sorted_insert(self.missing(), key)
            },
        }
    }

    /// The display name of the active language.
    pub open spec fn current_name(&self) -> Seq<char> {
        match self.current_file() {
            Some(f) => f.1,
            None => self.fallback_file().1,
        }
    }

    /// The active language and en-US are both loaded.
    pub open spec fn languages_registered(&self) -> bool {
        &&& has_code(self.locale_list(), self.current())
        &&& has_code(self.locale_list(), default_language())
    }

    /// One call that keeps the loaded locales and leaves the active language
    /// as it was or sets it to a loaded one, as `select_language`, `tr`,
    /// `tr_with` and `add_diagnostic` do.
    pub open spec fn language_step(&self, next: &Localization) -> bool {
        &&& next.locale_list() == self.locale_list()
        &&& (next.current() == self.current() || has_code(next.locale_list(), next.current()))
    }

    /// Everything but the missing keys is the same.
    pub open spec fn same_except_missing(&self, other: &Localization) -> bool {
        &&& self.fallback_file() == other.fallback_file()
        &&& self.locale_list() == other.locale_list()
        &&& self.current() == other.current()
        &&& self.diagnostic_lines() == other.diagnostic_lines()
        &&& self.directory() == other.directory()
        &&& self.is_development() == other.is_development()
    }
}

/// Index of the locale with code `code`, or the length.
fn find_locale(ls: &Vec<LocaleFile>, code: &String) -> (r: usize)
    ensures
        r == locale_index(locale_views(ls@), code@),
{
    let mut i: usize = 0;
    while i < ls.len() && !(ls[i].locale == *code)
        invariant
            i <= ls.len(),
            locale_from(locale_views(ls@), code@, 0) == locale_from(
                locale_views(ls@),
                code@,
                i as int,
            ),
        decreases ls.len() - i,
    {
        i += 1;
    }
    i
}

/// Index of the translation with key `key`, or the length.
fn find_key(ss: &Vec<(String, String)>, key: &String) -> (r: usize)
    ensures
        r == key_from(pair_views(ss@), key@, 0),
{
    let mut i: usize = 0;
    while i < ss.len() && !(ss[i].0 == *key)
        invariant
            i <= ss.len(),
            key_from(pair_views(ss@), key@, 0) == key_from(pair_views(ss@), key@, i as int),
        decreases ss.len() - i,
    {
        i += 1;
    }
    i
}

/// Adds a locale, replacing the one with the same code (`HashMap::insert`).
pub open spec fn with_locale(ls: Seq<LocaleView>, f: LocaleView) -> Seq<LocaleView> {
    let i = locale_index(ls, f.0);
    if 0 <= i < ls.len() {
        ls.update(i, f)
    } else {
        ls.push(f)
    }
}

/// The locales after the fallback and then each external file were added.
pub open spec fn registered(fallback: LocaleView, external: Seq<LocaleView>) -> Seq<LocaleView>
    decreases external.len(),
{
    if external.len() == 0 {
        seq![fallback]
    } else {
        with_locale(registered(fallback, external.drop_last()), external.last())
    }
}

pub proof fn lemma_locale_from(ls: Seq<LocaleView>, code: Seq<char>, i: int)
    requires
        0 <= i <= ls.len(),
    ensures
        i <= locale_from(ls, code, i) <= ls.len(),
        forall|j: int| i <= j < locale_from(ls, code, i) ==> (#[trigger] ls[j]).0 != code,
        locale_from(ls, code, i) < ls.len() ==> ls[locale_from(ls, code, i)].0 == code,
    decreases ls.len() - i,
{
    if i < ls.len() && ls[i].0 != code {
        lemma_locale_from(ls, code, i + 1);
    }
}

/// Adding a locale keeps the codes distinct, and every locale afterwards is
/// the new one or was there before.
pub proof fn lemma_with_locale(ls: Seq<LocaleView>, f: LocaleView)
    requires
        codes_distinct(ls),
    ensures
        codes_distinct(with_locale(ls, f)),
        forall|i: int|
            0 <= i < with_locale(ls, f).len() ==> #[trigger] with_locale(ls, f)[i] == f || (
            exists|j: int| 0 <= j < ls.len() && ls[j] == with_locale(ls, f)[i]),
{
    lemma_locale_from(ls, f.0, 0);
    let r = with_locale(ls, f);
    let i = locale_index(ls, f.0);
    assert forall|a: int, b: int| 0 <= a < b < r.len() implies r[a].0 != r[b].0 by {
        if 0 <= i < ls.len() {
            if a != i && b != i {
                assert(r[a] == ls[a] && r[b] == ls[b]);
            } else if a == i {
                assert(r[b] == ls[b]);
            } else {
                assert(r[a] == ls[a]);
            }
        } else {
            if b == ls.len() {
                assert(r[a] == ls[a]);
            } else {
                assert(r[a] == ls[a] && r[b] == ls[b]);
            }
        }
    }
    assert forall|k: int| 0 <= k < r.len() implies #[trigger] r[k] == f || (exists|j: int|
        0 <= j < ls.len() && ls[j] == r[k]) by {
        if r[k] != f {
            assert(ls[k] == r[k]);
        }
    }
}

/// Adds a locale to a list, replacing the one with the same code.
pub fn insert_locale(ls: &mut Vec<LocaleFile>, f: LocaleFile)
    ensures
        locale_views(final(ls)@) == with_locale(locale_views(old(ls)@), f@),
{
    let i = find_locale(ls, &f.locale);
    let ghost fv = f@;
    if i < ls.len() {
        ls.set(i, f);
    } else {
        ls.push(f);
    }
    assert(locale_views(ls@) =~= with_locale(locale_views(old(ls)@), fv));
}

/// Whether a locale with code `code` is loaded.
pub open spec fn has_code(ls: Seq<LocaleView>, code: Seq<char>) -> bool {
    locale_index(ls, code) < ls.len()
}

/// A locale with code `code` at index `j` makes `code` loaded.
proof fn lemma_has_code_at(ls: Seq<LocaleView>, code: Seq<char>, j: int)
    requires
        0 <= j < ls.len(),
        ls[j].0 == code,
    ensures
        has_code(ls, code),
{
    lemma_locale_from(ls, code, 0);
}

/// Adding a locale loads its code and keeps every code that was loaded.
pub proof fn lemma_with_locale_codes(ls: Seq<LocaleView>, f: LocaleView, code: Seq<char>)
    ensures
        has_code(with_locale(ls, f), f.0),
        has_code(ls, code) ==> has_code(with_locale(ls, f), code),
{
    lemma_locale_from(ls, f.0, 0);
    lemma_locale_from(ls, code, 0);
    let i = locale_index(ls, f.0);
    let r = with_locale(ls, f);
    if 0 <= i < ls.len() {
        lemma_has_code_at(r, f.0, i);
    } else {
        lemma_has_code_at(r, f.0, ls.len() as int);
    }
    if has_code(ls, code) {
        let j = locale_index(ls, code);
        assert(r[j].0 == code);
        lemma_has_code_at(r, code, j);
    }
}

/// The built-in file's code stays loaded whatever external files come after.
pub proof fn lemma_registered_keeps_fallback(fallback: LocaleView, external: Seq<LocaleView>)
    ensures
        has_code(registered(fallback, external), fallback.0),
    decreases external.len(),
{
    if external.len() == 0 {
        lemma_has_code_at(seq![fallback], fallback.0, 0);
    } else {
        lemma_registered_keeps_fallback(fallback, external.drop_last());
        lemma_with_locale_codes(
            registered(fallback, external.drop_last()),
            external.last(),
            fallback.0,
        );
    }
}

/// Whatever sequence of such calls follows, the active language and en-US
/// stay loaded once they are.
pub proof fn lemma_languages_stay_registered(states: Seq<Localization>)
    requires
        states.len() > 0,
        states[0].languages_registered(),
        forall|i: int| 0 <= i < states.len() - 1 ==> #[trigger] states[i].language_step(&states[i + 1]),
    ensures
        forall|i: int| 0 <= i < states.len() ==> #[trigger] states[i].languages_registered(),
    decreases states.len(),
{
    if states.len() > 1 {
        let front = states.drop_last();
        assert forall|i: int| 0 <= i < front.len() - 1 implies #[trigger] front[i].language_step(&front[i + 1]) by {
            assert(front[i] == states[i] && front[i + 1] == states[i + 1]);
            assert(states[i].language_step(&states[i + 1]));
        }
        lemma_languages_stay_registered(front);
        let n = states.len() - 1;
        let k = n - 1;
        assert(front[k] == states[k]);
        assert(front[k].languages_registered());
        assert(states[k].language_step(&states[k + 1]));
        assert(k + 1 == n);
        assert(states[n].languages_registered());
        assert forall|i: int| 0 <= i < states.len() implies #[trigger] states[i].languages_registered() by {
            if i < n {
                assert(front[i] == states[i]);
            }
        }
    }
}

impl Localization {
    /// Assembles the translator: the built-in fallback, then each external
    /// locale (a later file with the same code replaces an earlier one), and
    /// the saved language when it is available. Otherwise the default
    /// language is active and a diagnostic says why.
    pub fn from_parts(
        fallback: LocaleFile,
        external: Vec<LocaleFile>,
        requested_language: String,
        diagnostics: Vec<String>,
        locale_dir: String,
        development: bool,
    ) -> (r: Localization)
        requires
            locale_wf(fallback@),
            forall|i: int| 0 <= i < external@.len() ==> locale_wf(#[trigger] external@[i]@),
        ensures
            r.wf(),
            r.fallback_file() == fallback@,
            r.locale_list() == registered(fallback@, locale_views(external@)),
            locale_index(r.locale_list(), requested_language@) < r.locale_list().len() ==> r.current()
                == requested_language@ && r.diagnostic_lines() == string_views(diagnostics@),
            locale_index(r.locale_list(), requested_language@) >= r.locale_list().len() ==> r.current()
                == default_language() && r.diagnostic_lines() == string_views(diagnostics@).push(
                "Saved language '"@ + requested_language@ + "' is unavailable; using en-US"@,
            ),
            r.missing().len() == 0,
            r.directory() == locale_dir@,
            r.is_development() == development,
            fallback@.0 == default_language() ==> r.languages_registered(),
    {
        let mut locales: Vec<LocaleFile> = Vec::new();
        locales.push(fallback.duplicate());
        assert(locale_views(locales@) == seq![fallback@]);
        let ghost ext = locale_views(external@);
        let mut external = external;
        let n = external.len();
        let mut i: usize = 0;
        while i < n
            invariant
                n == ext.len(),
                i <= ext.len(),
                external@.len() == ext.len() - i,
                forall|k: int| 0 <= k < external@.len() ==> (#[trigger] external@[k])@ == ext[i + k],
                locale_views(locales@) == registered(fallback@, ext.take(i as int)),
                codes_distinct(locale_views(locales@)),
                forall|k: int|
                    0 <= k < locales@.len() ==> locale_wf(#[trigger] locale_views(locales@)[k]),
                forall|k: int| 0 <= k < ext.len() ==> locale_wf(#[trigger] ext[k]),
                locale_wf(fallback@),
            decreases n - i,
        {
            let ghost prev = external@;
            let f = external.remove(0);
            proof {
                assert(f@ == ext[i as int]);
                let before = locale_views(locales@);
                lemma_with_locale(before, f@);
                assert(ext.take(i + 1).drop_last() == ext.take(i as int));
                assert(ext.take(i + 1).last() == ext[i as int]);
                assert forall|k: int| 0 <= k < with_locale(before, f@).len() implies locale_wf(
                    #[trigger] with_locale(before, f@)[k],
                ) by {
                    if with_locale(before, f@)[k] != f@ {
                        let j = choose|j: int|
                            0 <= j < before.len() && before[j] == with_locale(before, f@)[k];
                        assert(locale_wf(before[j]));
                    }
                }
            }
            insert_locale(&mut locales, f);
            i += 1;
            assert forall|k: int| 0 <= k < external@.len() implies (#[trigger] external@[k])@
                == ext[i + k] by {
                assert(external@[k] == prev[k + 1]);
            }
        }
        assert(ext.take(ext.len() as int) == ext);
        let mut diagnostics = diagnostics;
        let found = find_locale(&locales, &requested_language);
        let current_language = if found < locales.len() {
            requested_language
        } else {
            let mut line: Vec<char> = Vec::new();
            extend_str(&mut line, "Saved language '");
            extend_str(&mut line, requested_language.as_str());
            extend_str(&mut line, "' is unavailable; using en-US");
            let ghost old_diag = diagnostics@;
            diagnostics.push(string_of(&line));
            assert(string_views(diagnostics@) =~= string_views(old_diag).push(line@));
            String::from_str("en-US")
        };
        let r = Localization {
            fallback,
            locales,
            current_language,
            diagnostics,
            missing_keys: Vec::new(),
            locale_dir,
            development,
        };
        assert(r.missing() =~= Seq::<Seq<char>>::empty());
        proof {
            lemma_registered_keeps_fallback(fallback@, ext);
        }
        r
    }
}

} // verus!

verus! {

/// `str::to_lowercase`: the full Unicode lower-case mapping of a text, which
/// depends on the text alone.
pub uninterp spec fn lowercase(s: Seq<char>) -> Seq<char>;

/// `str::to_lowercase`.
#[verifier::external_body]
pub(crate) fn to_lowercase(s: &str) -> (r: String)
    ensures
        r@ == lowercase(s@),
{
    s.to_lowercase()
}

/// The (code, display name) of each locale.
pub open spec fn name_pairs(ls: Seq<LocaleView>) -> Seq<(Seq<char>, Seq<char>)> {
    ls.map_values(|f: LocaleView| (f.0, f.1))
}

/// The character contents of each (name, value) pair.
pub open spec fn str_pair_views(vs: Seq<(&str, &str)>) -> Seq<(Seq<char>, Seq<char>)> {
    vs.map_values(|p: (&str, &str)| (p.0@, p.1@))
}

/// The lines of the diagnostic report.
pub open spec fn report_lines(
    dir: Seq<char>,
    current: Seq<char>,
    diagnostics: Seq<Seq<char>>,
    missing: Seq<Seq<char>>,
) -> Seq<Seq<char>> {
    let head = seq![
        "Locale directory: "@ + dir,
        "Active language: "@ + current,
        "Built-in English fallback: embedded in executable"@,
        "External en-US override: enabled in Development builds"@,
    ];
    let body = head + diagnostics + missing.map_values(
        |k: Seq<char>| "Missing translation key: "@ + k,
    );
    if diagnostics.len() == 0 && missing.len() == 0 {
        body.push("No localization issues detected"@)
    } else {
        body
    }
}

/// The error for a locale file whose code or name is blank.
pub open spec fn locale_file_problem(f: LocaleView, path: Seq<char>) -> Option<Seq<char>> {
    if trimmed(f.0).len() == 0 {
        Some("Invalid locale "@ + path + ": 'locale' cannot be empty"@)
    } else if trimmed(f.1).len() == 0 {
        Some("Invalid locale "@ + path + ": 'name' cannot be empty"@)
    } else {
        None
    }
}

/// Refuses a locale file whose code or display name is blank.
pub fn check_locale_file(file: LocaleFile, path: &str) -> (r: Result<LocaleFile, String>)
    ensures
        match (r, locale_file_problem(file@, path@)) {
            (Ok(f), None) => f@ == file@,
            (Err(e), Some(p)) => e@ == p,
            _ => false,
        },
{
    let code = chars_of(file.locale.as_str());
    let name = chars_of(file.name.as_str());
    if is_blank(&code) {
        let mut line: Vec<char> = Vec::new();
        extend_str(&mut line, "Invalid locale ");
        extend_str(&mut line, path);
        extend_str(&mut line, ": 'locale' cannot be empty");
        return Err(string_of(&line));
    }
    if is_blank(&name) {
        let mut line: Vec<char> = Vec::new();
        extend_str(&mut line, "Invalid locale ");
        extend_str(&mut line, path);
        extend_str(&mut line, ": 'name' cannot be empty");
        return Err(string_of(&line));
    }
    Ok(file)
}

impl Localization {
    fn current_index(&self) -> (r: usize)
        ensures
            r == locale_index(self.locale_list(), self.current()),
    {
        find_locale(&self.locales, &self.current_language)
    }

    /// The code of the active language.
    pub fn current_language(&self) -> (r: &str)
        ensures
            r@ == self.current(),
    {
        self.current_language.as_str()
    }

    /// The display name of the active language, or of the fallback.
    pub fn current_language_name(&self) -> (r: &str)
        ensures
            r@ == self.current_name(),
    {
        let i = self.current_index();
        if i < self.locales.len() {
            self.locales[i].name.as_str()
        } else {
            self.fallback.name.as_str()
        }
    }

    /// Whether a locale with this code is loaded.
    pub fn has_language(&self, language: &str) -> (r: bool)
        ensures
            r == (locale_index(self.locale_list(), language@) < self.locale_list().len()),
    {
        let code = String::from_str(language);
        find_locale(&self.locales, &code) < self.locales.len()
    }

    /// Makes a loaded language the active one.
    pub fn select_language(&mut self, language: &str) -> (r: Result<(), String>)
        requires
            old(self).wf(),
        ensures
            final(self).wf(),
            locale_index(old(self).locale_list(), language@) < old(self).locale_list().len() ==> r
                is Ok && final(self).current() == language@,
            locale_index(old(self).locale_list(), language@) >= old(self).locale_list().len() ==> (
            r matches Err(e) && e@ == "Language '"@ + language@ + "' is not available"@)
                && final(self).current() == old(self).current(),
            old(self).languages_registered() ==> final(self).languages_registered(),
            old(self).language_step(final(self)),
            final(self).missing() == old(self).missing(),
            final(self).fallback_file() == old(self).fallback_file(),
            final(self).locale_list() == old(self).locale_list(),
            final(self).diagnostic_lines() == old(self).diagnostic_lines(),
            final(self).directory() == old(self).directory(),
            final(self).is_development() == old(self).is_development(),
    {
        if !self.has_language(language) {
            let mut line: Vec<char> = Vec::new();
            extend_str(&mut line, "Language '");
            extend_str(&mut line, language);
            extend_str(&mut line, "' is not available");
            return Err(string_of(&line));
        }
        self.current_language = String::from_str(language);
        Ok(())
    }

    /// Records a diagnostic line.
    pub fn add_diagnostic(&mut self, line: String)
        requires
            old(self).wf(),
        ensures
            final(self).wf(),
            final(self).diagnostic_lines() == old(self).diagnostic_lines().push(line@),
            old(self).language_step(final(self)),
            final(self).missing() == old(self).missing(),
            final(self).fallback_file() == old(self).fallback_file(),
            final(self).locale_list() == old(self).locale_list(),
            final(self).current() == old(self).current(),
            final(self).directory() == old(self).directory(),
            final(self).is_development() == old(self).is_development(),
    {
        let ghost before = self.diagnostics@;
        self.diagnostics.push(line);
        assert(string_views(self.diagnostics@) =~= string_views(before).push(line@));
    }

    /// Adds a key to the sorted set of keys without a translation.
    fn remember_missing(&mut self, key: String)
        requires
            old(self).wf(),
        ensures
            final(self).wf(),
            final(self).missing() == sorted_insert(old(self).missing(), key@),
            final(self).same_except_missing(old(self)),
    {
        let k = chars_of(key.as_str());
        let ghost m = self.missing();
        let mut p: usize = 0;
        while p < self.missing_keys.len() && text_less(
            &chars_of(self.missing_keys[p].as_str()),
            &k,
        )
            invariant
                p <= self.missing_keys.len(),
                m == string_views(self.missing_keys@),
                k@ == key@,
                first_not_below(m, key@, 0) == first_not_below(m, key@, p as int),
            decreases self.missing_keys.len() - p,
        {
            p += 1;
        }
        proof {
            lemma_sorted_insert(m, key@);
        }
        if p < self.missing_keys.len() && self.missing_keys[p] == key {
            return;
        }
        let ghost before = self.missing_keys@;
        self.missing_keys.insert(p, key);
        assert(string_views(self.missing_keys@) =~= string_views(before).insert(p as int, k@));
    }

    /// The translation of `key` in the active language, else in the built-in
    /// English, else the key itself (`[[key]]` in development builds). A key
    /// that the active language lacks is recorded as missing, unless the
    /// active language is English and the fallback has it.
    pub fn tr(&mut self, key: &str) -> (r: String)
        requires
            old(self).wf(),
        ensures
            final(self).wf(),
            r@ == old(self).translation(key@),
            final(self).missing() == old(self).missing_after(key@),
            final(self).missing().len() == old(self).missing().len() + if final(self).missing().contains(key@)
                && !old(self).missing().contains(key@) {
                1nat
            } else {
                0nat
            },
            final(self).same_except_missing(old(self)),
            old(self).languages_registered() ==> final(self).languages_registered(),
            old(self).language_step(final(self)),
    {
        proof {
            self.lemma_lookup_issue_count(key@);
        }
        let key_text = String::from_str(key);
        let i = self.current_index();
        if i < self.locales.len() {
            let j = find_key(&self.locales[i].strings, &key_text);
            if j < self.locales[i].strings.len() {
                return self.locales[i].strings[j].1.clone();
            }
        }
        let j = find_key(&self.fallback.strings, &key_text);
        if j < self.fallback.strings.len() {
            let value = self.fallback.strings[j].1.clone();
            let default = String::from_str("en-US");
            if !(self.current_language == default) {
                self.remember_missing(key_text);
            }
            return value;
        }
        self.remember_missing(key_text.clone());
        if self.development {
            let mut v: Vec<char> = Vec::new();
            v.push('[');
            v.push('[');
            extend_str(&mut v, key);
            v.push(']');
            v.push(']');
            string_of(&v)
        } else {
            key_text
        }
    }

    /// `tr`, then each `{name}` placeholder replaced by its value, in order.
    pub fn tr_with(&mut self, key: &str, values: &[(&str, &str)]) -> (r: String)
        requires
            old(self).wf(),
        ensures
            final(self).wf(),
            r@ == substitute_all(old(self).translation(key@), str_pair_views(values@)),
            final(self).missing() == old(self).missing_after(key@),
            final(self).same_except_missing(old(self)),
            old(self).languages_registered() ==> final(self).languages_registered(),
            old(self).language_step(final(self)),
    {
        let first = self.tr(key);
        let mut text = chars_of(first.as_str());
        let ghost t0 = text@;
        let mut i: usize = 0;
        while i < values.len()
            invariant
                i <= values.len(),
                text@ == substitute_all(t0, str_pair_views(values@).take(i as int)),
            decreases values.len() - i,
        {
            let (name, value) = values[i];
            let mut pat: Vec<char> = Vec::new();
            pat.push('{');
            extend_str(&mut pat, name);
            pat.push('}');
            let rep = chars_of(value);
            text = replace_chars(&text, &pat, &rep);
            i += 1;
            proof {
                let now = str_pair_views(values@).take(i as int);
                assert(now.drop_last() == str_pair_views(values@).take(i - 1));
                assert(pat@ == placeholder(name@));
            }
        }
        assert(str_pair_views(values@).take(values.len() as int) == str_pair_views(values@));
        string_of(&text)
    }

    /// A lookup adds at most one issue: the missing keys grow by one exactly
    /// when the key is recorded for the first time, and never shrink.
    pub proof fn lemma_lookup_issue_count(&self, key: Seq<char>)
        requires
            self.wf(),
        ensures
            self.missing_after(key).len() == self.missing().len() + if self.missing_after(key).contains(
                key,
            ) && !self.missing().contains(key) {
                1nat
            } else {
                0nat
            },
    {
        lemma_sorted_insert(self.missing(), key);
        lemma_sorted_insert_len(self.missing(), key);
    }

    /// The number of diagnostics and missing keys.
    pub fn debug_issue_count(&self) -> (r: usize)
        ensures
            r == if self.diagnostic_lines().len() + self.missing().len() <= usize::MAX {
                self.diagnostic_lines().len() + self.missing().len()
            } else {
                usize::MAX as nat
            },
    {
        self.diagnostics.len().saturating_add(self.missing_keys.len())
    }

    /// A report of the directory, the active language, every diagnostic and
    /// every missing key, one per line.
    pub fn debug_report(&self) -> (r: String)
        ensures
            r@ == crate::text::join_pieces(
                report_lines(
                    self.directory(),
                    self.current(),
                    self.diagnostic_lines(),
                    self.missing(),
                ),
                '\n',
            ),
    {
        let mut lines: Vec<Vec<char>> = Vec::new();
        let mut l0: Vec<char> = Vec::new();
        extend_str(&mut l0, "Locale directory: ");
        extend_str(&mut l0, self.locale_dir.as_str());
        lines.push(l0);
        let mut l1: Vec<char> = Vec::new();
        extend_str(&mut l1, "Active language: ");
        extend_str(&mut l1, self.current_language.as_str());
        lines.push(l1);
        lines.push(chars_of("Built-in English fallback: embedded in executable"));
        lines.push(chars_of("External en-US override: enabled in Development builds"));
        let ghost head = crate::text::views(lines@);
        let mut i: usize = 0;
        while i < self.diagnostics.len()
            invariant
                i <= self.diagnostics.len(),
                crate::text::views(lines@) == head + self.diagnostic_lines().take(i as int),
            decreases self.diagnostics.len() - i,
        {
            let ghost prev = crate::text::views(lines@);
            let line = chars_of(self.diagnostics[i].as_str());
            lines.push(line);
            assert(crate::text::views(lines@) =~= prev.push(line@));
            i += 1;
            assert(self.diagnostic_lines().take(i as int) == self.diagnostic_lines().take(i - 1).push(
                self.diagnostics@[i - 1]@,
            ));
            assert(crate::text::views(lines@) =~= head + self.diagnostic_lines().take(i as int));
        }
        assert(self.diagnostic_lines().take(self.diagnostics.len() as int) == self.diagnostic_lines());
        let ghost mid = crate::text::views(lines@);
        let ghost tagged = self.missing().map_values(|k: Seq<char>| "Missing translation key: "@ + k);
        let mut j: usize = 0;
        while j < self.missing_keys.len()
            invariant
                j <= self.missing_keys.len(),
                tagged == self.missing().map_values(|k: Seq<char>| "Missing translation key: "@ + k),
                crate::text::views(lines@) == mid + tagged.take(j as int),
            decreases self.missing_keys.len() - j,
        {
            let mut line: Vec<char> = Vec::new();
            extend_str(&mut line, "Missing translation key: ");
            extend_str(&mut line, self.missing_keys[j].as_str());
            let ghost prev = crate::text::views(lines@);
            let ghost lv = line@;
            lines.push(line);
            assert(crate::text::views(lines@) =~= prev.push(lv));
            j += 1;
            assert(tagged.take(j as int) == tagged.take(j - 1).push(tagged[j - 1]));
            assert(crate::text::views(lines@) =~= mid + tagged.take(j as int));
        }
        assert(tagged.take(self.missing_keys.len() as int) == tagged);
        let ghost before_last = crate::text::views(lines@);
        if self.diagnostics.len() == 0 && self.missing_keys.len() == 0 {
            let last = chars_of("No localization issues detected");
            lines.push(last);
            assert(crate::text::views(lines@) =~= before_last.push(last@));
        }
        let joined = crate::text::join_chars(&lines, '\n');
        proof {
            let expect = report_lines(
                self.directory(),
                self.current(),
                self.diagnostic_lines(),
                self.missing(),
            );
            assert(crate::text::views(lines@) =~= expect);
        }
        string_of(&joined)
    }

    /// Each loaded language as (code, display name), ordered by the lower-case
    /// display name.
    pub fn available_languages(&self) -> (r: Vec<(String, String)>)
        ensures
            pair_views(r@).to_multiset() == name_pairs(self.locale_list()).to_multiset(),
            forall|a: int, b: int|
                0 <= a < b < r@.len() ==> !lex_lt(lowercase(r@[b].1@), lowercase(r@[a].1@)),
    {
        let ghost src = name_pairs(self.locale_list());
        let mut out: Vec<(String, String)> = Vec::new();
        let mut keys: Vec<Vec<char>> = Vec::new();
        let mut i: usize = 0;
        while i < self.locales.len()
            invariant
                i <= self.locales.len(),
                src == name_pairs(self.locale_list()),
                out@.len() == keys@.len(),
                pair_views(out@).to_multiset() == src.take(i as int).to_multiset(),
                forall|k: int| 0 <= k < keys@.len() ==> (#[trigger] keys@[k])@ == lowercase(out@[k].1@),
                forall|a: int, b: int|
                    0 <= a < b < keys@.len() ==> !lex_lt(keys@[b]@, keys@[a]@),
            decreases self.locales.len() - i,
        {
            let pair = (self.locales[i].locale.clone(), self.locales[i].name.clone());
            let lower = to_lowercase(self.locales[i].name.as_str());
            let key = chars_of(lower.as_str());
            let mut p: usize = 0;
            while p < keys.len() && !text_less(&key, &keys[p])
                invariant
                    p <= keys.len(),
                    forall|a: int| 0 <= a < p ==> !lex_lt(key@, (#[trigger] keys@[a])@),
                decreases keys.len() - p,
            {
                p += 1;
            }
            let ghost old_out = out@;
            let ghost old_keys = keys@;
            proof {
                assert forall|a: int, b: int|
                    0 <= a < b < old_keys.len() + 1 implies !lex_lt(
                    #[trigger] old_keys.insert(p as int, key)[b]@,
                    #[trigger] old_keys.insert(p as int, key)[a]@,
                ) by {
                    let n = old_keys.insert(p as int, key);
                    if b < p {
                        assert(n[a] == old_keys[a] && n[b] == old_keys[b]);
                    } else if b == p {
                        assert(n[a] == old_keys[a]);
                    } else if a == p {
                        assert(n[b] == old_keys[b - 1]);
                        assert(lex_lt(key@, old_keys[p as int]@));
                        lemma_lex_total(key@, old_keys[p as int]@);
                        if b - 1 > p {
                            if lex_lt(old_keys[b - 1]@, key@) {
                                lemma_lex_transitive(
                                    old_keys[b - 1]@,
                                    key@,
                                    old_keys[p as int]@,
                                );
                            }
                        }
                    } else if a < p {
                        assert(n[a] == old_keys[a] && n[b] == old_keys[b - 1]);
                    } else {
                        assert(n[a] == old_keys[a - 1] && n[b] == old_keys[b - 1]);
                    }
                }
                assert(src.take(i + 1) == src.take(i as int).push(src[i as int]));
                assert(pair_views(old_out.insert(p as int, pair)) =~= pair_views(old_out).insert(
                    p as int,
                    src[i as int],
                ));
                vstd::seq_lib::to_multiset_insert(pair_views(old_out), p as int, src[i as int]);
            }
            out.insert(p, pair);
            keys.insert(p, key);
            i += 1;
            proof {
                assert forall|k: int| 0 <= k < keys@.len() implies (#[trigger] keys@[k])@
                    == lowercase(out@[k].1@) by {
                    if k < p {
                        assert(keys@[k] == old_keys[k] && out@[k] == old_out[k]);
                    } else if k > p {
                        assert(keys@[k] == old_keys[k - 1] && out@[k] == old_out[k - 1]);
                    }
                }
            }
        }
        assert(src.take(self.locales.len() as int) == src);
        assert forall|a: int, b: int| 0 <= a < b < out@.len() implies !lex_lt(
            lowercase(out@[b].1@),
            lowercase(out@[a].1@),
        ) by {
            assert(keys@[a]@ == lowercase(out@[a].1@));
            assert(keys@[b]@ == lowercase(out@[b].1@));
        }
        out
    }
}

} // verus!
