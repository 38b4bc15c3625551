//! Team, staff and player command payloads: strategies, replays, transfers,
//! roles and the small enumerations that the editor sends as text.

use vstd::prelude::*;
use vstd::utf8::{decode_utf8, encode_utf8, valid_utf8};
use crate::error::BridgeError;
use crate::hex::{hex_decode, hex_decoded, hex_encode_into, hex_text, lemma_hex_round_trip};
use crate::text::{
    chars_eq_str, chars_of, decimal_text, is_blank, join_pieces, parse_usize_chars,
    parse_usize_spec, push_decimal, split_chars, split_once, split_once_chars, split_pieces,
    string_of, trim_chars, trimmed, views, lemma_split_join,
};
use crate::edits::{decimal_chars, record_payload, record_text};
use crate::wire::{
    chars_bytes, id_prefix, lemma_id_text, lemma_payload_text, lemma_split_once_joined,
    payload_chars, usize_at, usize_field,
};

verus! {

broadcast use {vstd::seq_lib::group_seq_properties, vstd::utf8::group_utf8_lib};

// ---------------------------------------------------------------------------
// Tab-separated reports
// ---------------------------------------------------------------------------
/// A cell with its tabs and line breaks turned into spaces.
pub open spec fn tsv_cell(s: Seq<char>) -> Seq<char> {
    s.map_values(|c: char| if c == '\t' || c == '\r' || c == '\n' { ' ' } else { c })
}

/// Replaces tabs and line breaks in a report cell with spaces.
pub fn sanitize_tsv_cell(value: &str) -> (r: String)
    ensures
        r@ == tsv_cell(value@),
{
    let v = chars_of(value);
    let mut out = String::new();
    let mut i: usize = 0;
    while i < v.len()
        invariant
            i <= v.len(),
            out@ == tsv_cell(v@.take(i as int)),
        decreases v.len() - i,
    {
        let c = v[i];
        if c == '\t' || c == '\r' || c == '\n' {
            out.push(' ');
        } else {
            out.push(c);
        }
        i += 1;
        assert(tsv_cell(v@.take(i as int)) =~= tsv_cell(v@.take(i - 1)).push(
            if c == '\t' || c == '\r' || c == '\n' { ' ' } else { c },
        ));
    }
    assert(v@.take(v.len() as int) == v@);
    out
}

/// The cells of a row, sanitized and joined with tabs.
pub open spec fn tsv_row(cells: Seq<String>) -> Seq<char> {
    join_pieces(cells.map_values(|c: String| tsv_cell(c@)), '\t')
}

/// Appends a row to a report, on a new line unless the report is empty.
pub fn append_tsv_row(output: &mut String, cells: &[String])
    ensures
        final(output)@ == old(output)@ + (if old(output)@.len() > 0 {
            seq!['\n']
        } else {
            Seq::empty()
        }) + tsv_row(cells@),
{
    let ghost start = output@;
    if output.as_str().unicode_len() != 0 {
        output.push('\n');
    }
    let ghost head = output@;
    let mut k: usize = 0;
    while k < cells.len()
        invariant
            k <= cells.len(),
            output@ == head + tsv_row(cells@.take(k as int)),
        decreases cells.len() - k,
    {
        let ghost before = cells@.take(k as int);
        if k != 0 {
            output.push('\t');
        }
        let cell = sanitize_tsv_cell(cells[k].as_str());
        let cv = chars_of(cell.as_str());
        crate::text::push_chars(output, &cv);
        k += 1;
        proof {
            let now = cells@.take(k as int);
            let f = |c: String| tsv_cell(c@);
            assert(now.drop_last() == before);
            assert(now.map_values(f).drop_last() =~= before.map_values(f));
            assert(now.map_values(f).last() == tsv_cell(cells@[k - 1]@));
            if k == 1 {
                assert(now.map_values(f) =~= seq![tsv_cell(cells@[0]@)]);
            }
        }
    }
    assert(cells@.take(cells.len() as int) == cells@);
    assert(start.len() > 0 ==> head == start.push('\n'));
    assert(start.len() == 0 ==> head == start);
}

// ---------------------------------------------------------------------------
// Replay ids
// ---------------------------------------------------------------------------
/// Reads comma-separated replay ids in order, skipping blank pieces and ids
/// seen before; the first piece that is not an id decides the error.
pub open spec fn replay_ids(ps: Seq<Seq<char>>) -> Result<Seq<usize>, BridgeError>
    decreases ps.len(),
{
    if ps.len() == 0 {
        Ok(Seq::empty())
    } else {
        match replay_ids(ps.drop_last()) {
            Err(e) => Err(e),
            Ok(ids) => {
                let t = trimmed(ps.last());
                if t.len() == 0 {
                    Ok(ids)
                } else {
                    match parse_usize_spec(t) {
                        None => Err(BridgeError::InvalidReplayId),
                        Some(n) => if ids.contains(n) {
                            Ok(ids)
                        } else {
                            Ok(ids.push(n))
                        },
                    }
                }
            },
        }
    }
}

/// `parse_replay_id_list`: the distinct ids, at least one.
pub open spec fn replay_id_list(raw: Seq<char>) -> Result<Seq<usize>, BridgeError> {
    match replay_ids(split_pieces(raw, ',')) {
        Err(e) => Err(e),
        Ok(ids) => if ids.len() == 0 {
            Err(BridgeError::NoReplayIds)
        } else {
            Ok(ids)
        },
    }
}

pub proof fn lemma_replay_ids_prefix(ps: Seq<Seq<char>>, k: int)
    requires
        0 <= k <= ps.len(),
        replay_ids(ps.take(k)) is Err,
    ensures
        replay_ids(ps) == replay_ids(ps.take(k)),
    decreases ps.len(),
{
    if k < ps.len() {
        assert(ps.drop_last().take(k) == ps.take(k));
        lemma_replay_ids_prefix(ps.drop_last(), k);
    } else {
        assert(ps.take(k) == ps);
    }
}

/// Whether `v` holds `n`.
fn contains_id(v: &Vec<usize>, n: usize) -> (r: bool)
    ensures
        r == v@.contains(n),
{
    let mut i: usize = 0;
    while i < v.len()
        invariant
            i <= v.len(),
            forall|k: int| 0 <= k < i ==> v@[k] != n,
        decreases v.len() - i,
    {
        if v[i] == n {
            assert(v@[i as int] == n);
            return true;
        }
        i += 1;
    }
    false
}

/// Reads a comma-separated list of replay ids; each id is kept once, in the
/// order of its first occurrence.
pub fn parse_replay_id_list(raw: &str) -> (r: Result<Vec<usize>, BridgeError>)
    ensures
        match r {
            Ok(ids) => replay_id_list(raw@) == Ok::<Seq<usize>, BridgeError>(ids@)
                && ids@.no_duplicates(),
            Err(e) => replay_id_list(raw@) == Err::<Seq<usize>, BridgeError>(e),
        },
{
    let pieces = split_chars(&chars_of(raw), ',');
    let ghost ps = views(pieces@);
    let mut ids: Vec<usize> = Vec::new();
    let mut k: usize = 0;
    while k < pieces.len()
        invariant
            k <= pieces.len(),
            ps == views(pieces@),
            ps == split_pieces(raw@, ','),
            replay_ids(ps.take(k as int)) == Ok::<Seq<usize>, BridgeError>(ids@),
            ids@.no_duplicates(),
        decreases pieces.len() - k,
    {
        proof {
            assert(ps.take(k + 1).drop_last() == ps.take(k as int));
            assert(ps.take(k + 1).last() == pieces@[k as int]@);
        }
        let t = trim_chars(&pieces[k]);
        if t.len() != 0 {
            let n = match parse_usize_chars(&t) {
                Some(n) => n,
                None => {
                    proof {
                        lemma_replay_ids_prefix(ps, k + 1);
                    }
                    return Err(BridgeError::InvalidReplayId);
                },
            };
            if !contains_id(&ids, n) {
                ids.push(n);
            }
        }
        k += 1;
    }
    assert(ps.take(pieces.len() as int) == ps);
    if ids.len() == 0 {
        return Err(BridgeError::NoReplayIds);
    }
    Ok(ids)
}

// ---------------------------------------------------------------------------
// Team strategies
// ---------------------------------------------------------------------------
/// The payload that asks the server to swap a team's two strategies.
pub fn team_strategy_probe_payload(team_id: usize) -> (r: Vec<u8>)
    ensures
        r@ == encode_utf8(decimal_text(team_id as nat)),
{
    let mut out: Vec<char> = Vec::new();
    push_decimal(&mut out, team_id as u128);
    chars_bytes(&out)
}

/// What the server reads from a strategy swap payload.
pub open spec fn strategy_probe_parsed(payload: Seq<u8>) -> Result<usize, BridgeError> {
    if !valid_utf8(payload) {
        Err(BridgeError::InvalidPayload)
    } else {
        match parse_usize_spec(trimmed(decode_utf8(payload))) {
            Some(n) => Ok(n),
            None => Err(BridgeError::InvalidId),
        }
    }
}

/// Reads a strategy swap payload.
pub fn parse_team_strategy_probe_payload(payload: &[u8]) -> (r: Result<usize, BridgeError>)
    ensures
        r == strategy_probe_parsed(payload@),
{
    let text = payload_chars(payload)?;
    match parse_usize_chars(&trim_chars(&text)) {
        Some(n) => Ok(n),
        None => Err(BridgeError::InvalidId),
    }
}

/// A strategy swap payload reads back as its team id.
pub proof fn lemma_strategy_probe_round_trip(team_id: usize)
    ensures
        strategy_probe_parsed(encode_utf8(decimal_text(team_id as nat))) == Ok::<usize, BridgeError>(
            team_id,
        ),
{
    lemma_payload_text(decimal_text(team_id as nat));
    lemma_id_text(team_id);
    crate::wire::lemma_decimal_ends(team_id as nat);
    let t = decimal_text(team_id as nat);
    assert(crate::text::is_digit(t[t.len() - 1]));
    crate::text::lemma_trimmed_unchanged(t);
}

/// The twelve settings that a team strategy must name.
pub open spec fn strategy_keys() -> Seq<Seq<char>> {
    seq![
        "focused"@,
        "early_jungle"@,
        "early_serpen"@,
        "early_serpen_top"@,
        "object_buildup"@,
        "object_battle"@,
        "morgard_use"@,
        "tower_press"@,
        "morgard_defense"@,
        "object_finish"@,
        "minion_wave"@,
        "game_finish"@,
    ]
}

/// The settings on `key<TAB>value` lines, both trimmed and non-empty; a
/// later line for the same key replaces an earlier one. (`str::lines` also
/// drops a `\r` before each line break, which trimming the value removes
/// here just the same.)
pub open spec fn strategy_entries(ls: Seq<Seq<char>>) -> Map<Seq<char>, Seq<char>>
    decreases ls.len(),
{
    if ls.len() == 0 {
        Map::empty()
    } else {
        let m = strategy_entries(ls.drop_last());
        match split_once(ls.last(), '\t') {
            None => m,
            Some((k, v)) => {
                let key = trimmed(k);
                let value = trimmed(v);
                if key.len() > 0 && value.len() > 0 {
                    m.insert(key, value)
                } else {
                    m
                }
            },
        }
    }
}

/// `parse_team_strategy_values`: the settings, when all twelve are present.
pub open spec fn strategy_values(raw: Seq<char>) -> Result<Map<Seq<char>, Seq<char>>, BridgeError> {
    let m = strategy_entries(split_pieces(raw, '\n'));
    if forall|i: int| 0 <= i < strategy_keys().len() ==> m.contains_key(#[trigger] strategy_keys()[i]) {
        Ok(m)
    } else {
        Err(BridgeError::MissingStrategyValue)
    }
}

/// The map of distinct-key pairs.
pub open spec fn pairs_map(ps: Seq<(String, String)>) -> Map<Seq<char>, Seq<char>>
    decreases ps.len(),
{
    if ps.len() == 0 {
        Map::empty()
    } else {
        pairs_map(ps.drop_last()).insert(ps.last().0@, ps.last().1@)
    }
}

pub open spec fn keys_distinct(ps: Seq<(String, String)>) -> bool {
    forall|i: int, j: int| 0 <= i < j < ps.len() ==> (#[trigger] ps[i]).0@ != (#[trigger] ps[j]).0@
}

/// The keys of `pairs_map` are the keys of the pairs.
pub proof fn lemma_pairs_map_keys(ps: Seq<(String, String)>, k: Seq<char>)
    ensures
        pairs_map(ps).contains_key(k) <==> exists|i: int|
            0 <= i < ps.len() && (#[trigger] ps[i]).0@ == k,
    decreases ps.len(),
{
    if ps.len() > 0 {
        let d = ps.drop_last();
        lemma_pairs_map_keys(d, k);
        if exists|i: int| 0 <= i < d.len() && (#[trigger] d[i]).0@ == k {
            let i = choose|i: int| 0 <= i < d.len() && (#[trigger] d[i]).0@ == k;
            assert(ps[i] == d[i]);
        }
        if exists|i: int| 0 <= i < ps.len() && (#[trigger] ps[i]).0@ == k {
            let i = choose|i: int| 0 <= i < ps.len() && (#[trigger] ps[i]).0@ == k;
            if i < d.len() {
                assert(d[i] == ps[i]);
            } else {
                assert(ps[i] == ps.last());
            }
        }
        assert(ps.len() - 1 < ps.len() && ps[ps.len() - 1] == ps.last());
    }
}

/// Replacing the value of the pair at `j` updates the map.
pub proof fn lemma_pairs_map_update(ps: Seq<(String, String)>, j: int, p: (String, String))
    requires
        0 <= j < ps.len(),
        keys_distinct(ps),
        p.0@ == ps[j].0@,
    ensures
        pairs_map(ps.update(j, p)) == pairs_map(ps).insert(p.0@, p.1@),
        keys_distinct(ps.update(j, p)),
    decreases ps.len(),
{
    let q = ps.update(j, p);
    if j == ps.len() - 1 {
        assert(q.drop_last() == ps.drop_last());
        assert(pairs_map(q) =~= pairs_map(ps).insert(p.0@, p.1@));
    } else {
        assert(q.drop_last() == ps.drop_last().update(j, p));
        lemma_pairs_map_update(ps.drop_last(), j, p);
        assert(ps.last().0@ != p.0@) by {
            assert(ps[j].0@ != ps[ps.len() - 1].0@);
        }
        assert(pairs_map(q) =~= pairs_map(ps).insert(p.0@, p.1@));
    }
    assert forall|a: int, b: int| 0 <= a < b < q.len() implies (#[trigger] q[a]).0@ != (#[trigger] q[b]).0@ by {
        assert(ps[a].0@ != ps[b].0@);
    }
}

/// The `i`-th strategy setting.
fn strategy_key(i: usize) -> (r: &'static str)
    requires
        i < 12,
    ensures
        r@ == strategy_keys()[i as int],
{
    match i {
        0 => "focused",
        1 => "early_jungle",
        2 => "early_serpen",
        3 => "early_serpen_top",
        4 => "object_buildup",
        5 => "object_battle",
        6 => "morgard_use",
        7 => "tower_press",
        8 => "morgard_defense",
        9 => "object_finish",
        10 => "minion_wave",
        _ => "game_finish",
    }
}

/// Reads `key<TAB>value` lines into distinct settings, and checks that all
/// twelve strategy settings are among them.
pub fn parse_team_strategy_values(raw: &str) -> (r: Result<Vec<(String, String)>, BridgeError>)
    ensures
        match r {
            Ok(ps) => keys_distinct(ps@) && strategy_values(raw@) == Ok::<
                Map<Seq<char>, Seq<char>>,
                BridgeError,
            >(pairs_map(ps@)),
            Err(e) => strategy_values(raw@) == Err::<Map<Seq<char>, Seq<char>>, BridgeError>(e),
        },
{
    let lines = split_chars(&chars_of(raw), '\n');
    let ghost ls = views(lines@);
    let mut values: Vec<(String, String)> = Vec::new();
    let mut k: usize = 0;
    while k < lines.len()
        invariant
            k <= lines.len(),
            ls == views(lines@),
            keys_distinct(values@),
            pairs_map(values@) == strategy_entries(ls.take(k as int)),
        decreases lines.len() - k,
    {
        proof {
            assert(ls.take(k + 1).drop_last() == ls.take(k as int));
            assert(ls.take(k + 1).last() == lines@[k as int]@);
        }
        match split_once_chars(&lines[k], '\t') {
            None => {},
            Some((a, b)) => {
                let key = trim_chars(&a);
                let value = trim_chars(&b);
                if key.len() > 0 && value.len() > 0 {
                    let mut j: usize = 0;
                    while j < values.len() && !crate::text::chars_eq(&chars_of(values[j].0.as_str()), &key)
                        invariant
                            j <= values.len(),
                            forall|i: int| 0 <= i < j ==> (#[trigger] values@[i]).0@ != key@,
                        decreases values.len() - j,
                    {
                        j += 1;
                    }
                    let pair = (string_of(&key), string_of(&value));
                    if j < values.len() {
                        proof {
                            lemma_pairs_map_update(values@, j as int, pair);
                        }
                        values.set(j, pair);
                    } else {
                        let ghost old_values = values@;
                        values.push(pair);
                        proof {
                            assert(values@.drop_last() == old_values);
                            assert forall|a: int, b: int| 0 <= a < b < values@.len() implies (#[trigger] values@[a]).0@
                                != (#[trigger] values@[b]).0@ by {
                                if b == values@.len() - 1 {
                                    assert(old_values[a].0@ != key@);
                                } else {
                                    assert(old_values[a].0@ != old_values[b].0@);
                                }
                            }
                        }
                    }
                }
            },
        }
        k += 1;
    }
    assert(ls.take(lines.len() as int) == ls);
    let ghost m = pairs_map(values@);
    let mut i: usize = 0;
    while i < 12
        invariant
            i <= 12,
            m == pairs_map(values@),
            m == strategy_entries(split_pieces(raw@, '\n')),
            forall|q: int| 0 <= q < i ==> m.contains_key(#[trigger] strategy_keys()[q]),
        decreases 12 - i,
    {
        let want = strategy_key(i);
        let mut j: usize = 0;
        while j < values.len() && !chars_eq_str(&chars_of(values[j].0.as_str()), want)
            invariant
                j <= values.len(),
                forall|x: int| 0 <= x < j ==> (#[trigger] values@[x]).0@ != want@,
            decreases values.len() - j,
        {
            j += 1;
        }
        proof {
            lemma_pairs_map_keys(values@, want@);
        }
        if j == values.len() {
            assert(!m.contains_key(strategy_keys()[i as int]));
            return Err(BridgeError::MissingStrategyValue);
        }
        assert(values@[j as int].0@ == want@);
        i += 1;
    }
    Ok(values)
}

/// The payload of a strategy change: `"{team_id}|{hex strategy}"`.
pub fn team_strategy_set_payload(team_id: usize, raw_strategy: &str) -> (r: Vec<u8>)
    ensures
        r@ == encode_utf8(decimal_text(team_id as nat).push('|') + hex_text(raw_strategy@)),
{
    let mut s = string_of(&id_prefix(team_id));
    hex_encode_into(&mut s, raw_strategy);
    s.as_str().as_bytes_vec()
}

/// What the server reads from a strategy change payload: the id before the
/// first `|`, then the decoded strategy text, which must name all settings.
pub open spec fn strategy_set_parsed(payload: Seq<u8>) -> Result<(usize, Seq<char>), BridgeError> {
    if !valid_utf8(payload) {
        Err(BridgeError::InvalidPayload)
    } else {
        let text = decode_utf8(payload);
        let first = match split_once(text, '|') {
            Some((a, _)) => a,
            None => text,
        };
        match parse_usize_spec(first) {
            None => Err(BridgeError::InvalidId),
            Some(id) => match split_once(text, '|') {
                None => Err(BridgeError::MissingValue),
                Some((_, rest)) => match hex_decoded(rest) {
                    Err(e) => Err(e),
                    Ok(raw) => match strategy_values(raw) {
                        Err(e) => Err(e),
                        Ok(_) => Ok((id, raw)),
                    },
                },
            },
        }
    }
}

/// Reads a strategy change payload.
pub fn parse_team_strategy_set_payload(payload: &[u8]) -> (r: Result<(usize, String), BridgeError>)
    ensures
        match r {
            Ok((i, raw)) => strategy_set_parsed(payload@) == Ok::<(usize, Seq<char>), BridgeError>(
                (i, raw@),
            ),
            Err(e) => strategy_set_parsed(payload@) == Err::<(usize, Seq<char>), BridgeError>(e),
        },
{
    let text = payload_chars(payload)?;
    let split = split_once_chars(&text, '|');
    let first = match &split {
        Some((a, _)) => crate::text::slice_chars(a, 0, a.len()),
        None => crate::text::slice_chars(&text, 0, text.len()),
    };
    let team_id = match parse_usize_chars(&first) {
        Some(n) => n,
        None => return Err(BridgeError::InvalidId),
    };
    let rest = match split {
        Some((_, b)) => b,
        None => return Err(BridgeError::MissingValue),
    };
    let raw_strategy = hex_decode(string_of(&rest).as_str())?;
    parse_team_strategy_values(raw_strategy.as_str())?;
    Ok((team_id, raw_strategy))
}

/// A strategy that names all settings, sent in a strategy change payload, is
/// read back unchanged.
pub proof fn lemma_strategy_set_round_trip(team_id: usize, raw: Seq<char>)
    requires
        strategy_values(raw) is Ok,
    ensures
        strategy_set_parsed(encode_utf8(decimal_text(team_id as nat).push('|') + hex_text(raw)))
            == Ok::<(usize, Seq<char>), BridgeError>((team_id, raw)),
{
    let t = decimal_text(team_id as nat).push('|') + hex_text(raw);
    lemma_payload_text(t);
    lemma_id_text(team_id);
    lemma_split_once_joined(decimal_text(team_id as nat), hex_text(raw), '|');
    lemma_hex_round_trip(raw);
}

// ---------------------------------------------------------------------------
// Roles, transfers and flags
// ---------------------------------------------------------------------------
/// The roles a staff member can take.
#[derive(Clone, Copy, Debug, PartialEq, Eq, Structural)]
pub enum StaffRole {
    HeadCoach,
    TrainingCoach,
    Scouter,
    Analyst,
}

/// A role by its exact name, once trimmed.
pub open spec fn staff_role_of(raw: Seq<char>) -> Result<StaffRole, BridgeError> {
    let t = trimmed(raw);
    if t == "HeadCoach"@ {
        Ok(StaffRole::HeadCoach)
    } else if t == "TrainingCoach"@ {
        Ok(StaffRole::TrainingCoach)
    } else if t == "Scouter"@ {
        Ok(StaffRole::Scouter)
    } else if t == "Analyst"@ {
        Ok(StaffRole::Analyst)
    } else {
        Err(BridgeError::InvalidStaffRole)
    }
}

/// Reads a staff role.
pub fn parse_staff_role(raw: &str) -> (r: Result<StaffRole, BridgeError>)
    ensures
        r == staff_role_of(raw@),
{
    let t = trim_chars(&chars_of(raw));
    if chars_eq_str(&t, "HeadCoach") {
        Ok(StaffRole::HeadCoach)
    } else if chars_eq_str(&t, "TrainingCoach") {
        Ok(StaffRole::TrainingCoach)
    } else if chars_eq_str(&t, "Scouter") {
        Ok(StaffRole::Scouter)
    } else if chars_eq_str(&t, "Analyst") {
        Ok(StaffRole::Analyst)
    } else {
        Err(BridgeError::InvalidStaffRole)
    }
}

/// A role that is given must be a known one.
pub open spec fn optional_role_check(role: Option<Seq<char>>) -> Result<(), BridgeError> {
    match role {
        None => Ok(()),
        Some(x) => match staff_role_of(x) {
            Ok(_) => Ok(()),
            Err(e) => Err(e),
        },
    }
}

/// Checks an optional staff role.
pub fn validate_optional_staff_role(role: Option<&str>) -> (r: Result<(), BridgeError>)
    ensures
        r == optional_role_check(match role {
            Some(x) => Some(x@),
            None => None,
        }),
{
    if let Some(role) = role {
        parse_staff_role(role)?;
    }
    Ok(())
}

/// An optional text as characters.
pub open spec fn option_view(o: Option<String>) -> Option<Seq<char>> {
    match o {
        Some(s) => Some(s@),
        None => None,
    }
}

/// What the server reads from a staff move payload: staff id, team id and,
/// when a third field is not blank, a role.
pub open spec fn move_staff_parsed(payload: Seq<u8>) -> Result<(usize, usize, Option<Seq<char>>), BridgeError> {
    if !valid_utf8(payload) {
        Err(BridgeError::InvalidPayload)
    } else {
        let ps = split_pieces(decode_utf8(payload), '|');
        match usize_field(ps, 0) {
            Err(e) => Err(e),
            Ok(staff_id) => match usize_field(ps, 1) {
                Err(e) => Err(e),
                Ok(team_id) => {
                    let role = if ps.len() > 2 && trimmed(ps[2]).len() > 0 {
                        Some(ps[2])
                    } else {
                        None
                    };
                    match optional_role_check(role) {
                        Err(e) => Err(e),
                        Ok(_) => Ok((staff_id, team_id, role)),
                    }
                },
            },
        }
    }
}

/// Reads a staff move payload.
pub fn parse_move_staff_payload(payload: &[u8]) -> (r: Result<(usize, usize, Option<String>), BridgeError>)
    ensures
        match r {
            Ok((a, b, role)) => move_staff_parsed(payload@) == Ok::<
                (usize, usize, Option<Seq<char>>),
                BridgeError,
            >((a, b, option_view(role))),
            Err(e) => move_staff_parsed(payload@) == Err::<
                (usize, usize, Option<Seq<char>>),
                BridgeError,
            >(e),
        },
{
    let text = payload_chars(payload)?;
    let parts = split_chars(&text, '|');
    let staff_id = usize_at(&parts, 0)?;
    let team_id = usize_at(&parts, 1)?;
    let role = if parts.len() > 2 && !is_blank(&parts[2]) {
        Some(string_of(&parts[2]))
    } else {
        None
    };
    match &role {
        Some(x) => {
            parse_staff_role(x.as_str())?;
        },
        None => {},
    }
    Ok((staff_id, team_id, role))
}

/// The payload of a staff move: staff id, team id and, when given, a role.
pub fn move_staff_payload(staff_id: usize, team_id: usize, role: Option<&str>) -> (r: Vec<u8>)
    ensures
        r@ == encode_utf8(
            record_text(
                staff_id,
                match role {
                    Some(x) => seq![decimal_text(team_id as nat), x@],
                    None => seq![decimal_text(team_id as nat)],
                },
            ),
        ),
{
    let mut fields: Vec<Vec<char>> = Vec::new();
    fields.push(decimal_chars(team_id));
    if let Some(x) = role {
        fields.push(chars_of(x));
    }
    assert(views(fields@) =~= match role {
        Some(x) => seq![decimal_text(team_id as nat), x@],
        None => seq![decimal_text(team_id as nat)],
    });
    record_payload(staff_id, &fields)
}

/// A staff move reads back as the ids and the role, when the role is a
/// known one with no `|`; no role reads back as none.
pub proof fn lemma_move_staff_round_trip(staff_id: usize, team_id: usize, role: Option<Seq<char>>)
    requires
        role matches Some(x) ==> !x.contains('|') && staff_role_of(x) is Ok,
    ensures
        move_staff_parsed(
            encode_utf8(
                record_text(
                    staff_id,
                    match role {
                        Some(x) => seq![decimal_text(team_id as nat), x],
                        None => seq![decimal_text(team_id as nat)],
                    },
                ),
            ),
        ) == Ok::<(usize, usize, Option<Seq<char>>), BridgeError>((staff_id, team_id, role)),
{
    let fields = match role {
        Some(x) => seq![decimal_text(team_id as nat), x],
        None => seq![decimal_text(team_id as nat)],
    };
    let ps = seq![decimal_text(staff_id as nat)] + fields;
    lemma_id_text(staff_id);
    lemma_id_text(team_id);
    assert forall|i: int| 0 <= i < ps.len() implies !(#[trigger] ps[i]).contains('|') by {}
    lemma_split_join(ps, '|');
    lemma_payload_text(record_text(staff_id, fields));
    if let Some(x) = role {
        assert(trimmed(x).len() > 0) by {
            if trimmed(x).len() == 0 {
                reveal_strlit("HeadCoach");
                reveal_strlit("TrainingCoach");
                reveal_strlit("Scouter");
                reveal_strlit("Analyst");
                assert(trimmed(x) != "HeadCoach"@);
                assert(trimmed(x) != "TrainingCoach"@);
                assert(trimmed(x) != "Scouter"@);
                assert(trimmed(x) != "Analyst"@);
            }
        }
    }
}

/// The payload of a player move: athlete id and team id.
pub fn move_player_payload(athlete_id: usize, team_id: usize) -> (r: Vec<u8>)
    ensures
        r@ == encode_utf8(record_text(athlete_id, seq![decimal_text(team_id as nat)])),
{
    let mut fields: Vec<Vec<char>> = Vec::new();
    fields.push(decimal_chars(team_id));
    assert(views(fields@) =~= seq![decimal_text(team_id as nat)]);
    record_payload(athlete_id, &fields)
}

/// A player move reads back as its ids.
pub proof fn lemma_move_player_round_trip(athlete_id: usize, team_id: usize)
    ensures
        move_player_parsed(encode_utf8(record_text(athlete_id, seq![decimal_text(team_id as nat)]))) == Ok::<
            (usize, usize),
            BridgeError,
        >((athlete_id, team_id)),
{
    let ps = seq![decimal_text(athlete_id as nat), decimal_text(team_id as nat)];
    assert(seq![decimal_text(athlete_id as nat)] + seq![decimal_text(team_id as nat)] =~= ps);
    lemma_id_text(athlete_id);
    lemma_id_text(team_id);
    assert forall|i: int| 0 <= i < ps.len() implies !(#[trigger] ps[i]).contains('|') by {}
    lemma_split_join(ps, '|');
    lemma_payload_text(record_text(athlete_id, seq![decimal_text(team_id as nat)]));
}

/// The payload that makes a player or a staff member a free agent: the id.
pub fn free_agent_payload(id: usize) -> (r: Vec<u8>)
    ensures
        r@ == encode_utf8(decimal_text(id as nat)),
{
    chars_bytes(&decimal_chars(id))
}

/// A free-agent payload reads back as its id.
pub proof fn lemma_free_agent_round_trip(id: usize)
    ensures
        free_agent_parsed(encode_utf8(decimal_text(id as nat))) == Ok::<usize, BridgeError>(id),
{
    lemma_id_text(id);
    lemma_payload_text(decimal_text(id as nat));
}

/// What the server reads from a player move payload.
pub open spec fn move_player_parsed(payload: Seq<u8>) -> Result<(usize, usize), BridgeError> {
    if !valid_utf8(payload) {
        Err(BridgeError::InvalidPayload)
    } else {
        let ps = split_pieces(decode_utf8(payload), '|');
        match usize_field(ps, 0) {
            Err(e) => Err(e),
            Ok(a) => match usize_field(ps, 1) {
                Err(e) => Err(e),
                Ok(b) => Ok((a, b)),
            },
        }
    }
}

/// Reads a player move payload: athlete id and team id.
pub fn parse_move_player_payload(payload: &[u8]) -> (r: Result<(usize, usize), BridgeError>)
    ensures
        r == move_player_parsed(payload@),
{
    let text = payload_chars(payload)?;
    let parts = split_chars(&text, '|');
    let athlete_id = usize_at(&parts, 0)?;
    let team_id = usize_at(&parts, 1)?;
    Ok((athlete_id, team_id))
}

/// What the server reads from a free-agent payload: the whole text as an id.
pub open spec fn free_agent_parsed(payload: Seq<u8>) -> Result<usize, BridgeError> {
    if !valid_utf8(payload) {
        Err(BridgeError::InvalidPayload)
    } else {
        match parse_usize_spec(decode_utf8(payload)) {
            Some(n) => Ok(n),
            None => Err(BridgeError::InvalidId),
        }
    }
}

/// Reads a free-agent payload.
pub fn parse_player_free_agent_payload(payload: &[u8]) -> (r: Result<usize, BridgeError>)
    ensures
        r == free_agent_parsed(payload@),
{
    let text = payload_chars(payload)?;
    match parse_usize_chars(&text) {
        Some(n) => Ok(n),
        None => Err(BridgeError::InvalidId),
    }
}

/// `"1"` is on, `"0"` is off.
pub open spec fn contract_bool_of(value: Seq<char>) -> Result<bool, BridgeError> {
    if value == "1"@ {
        Ok(true)
    } else if value == "0"@ {
        Ok(false)
    } else {
        Err(BridgeError::InvalidBoolean)
    }
}

/// Reads a contract flag.
pub fn parse_contract_bool(value: &str) -> (r: Result<bool, BridgeError>)
    ensures
        r == contract_bool_of(value@),
{
    let v = chars_of(value);
    if chars_eq_str(&v, "1") {
        Ok(true)
    } else if chars_eq_str(&v, "0") {
        Ok(false)
    } else {
        Err(BridgeError::InvalidBoolean)
    }
}

/// A player's standing in the squad.
#[derive(Clone, Copy, Debug, PartialEq, Eq, Structural)]
pub enum SquadStatus {
    Core,
    Important,
    General,
    Sub,
    Prospect,
}

/// A squad status by its exact name.
pub open spec fn squad_status_of(value: Seq<char>) -> Result<SquadStatus, BridgeError> {
    if value == "Core"@ {
        Ok(SquadStatus::Core)
    } else if value == "Important"@ {
        Ok(SquadStatus::Important)
    } else if value == "General"@ {
        Ok(SquadStatus::General)
    } else if value == "Sub"@ {
        Ok(SquadStatus::Sub)
    } else if value == "Prospect"@ {
        Ok(SquadStatus::Prospect)
    } else {
        Err(BridgeError::InvalidSquadStatus)
    }
}

/// Reads a squad status.
pub fn parse_squad_status(value: &str) -> (r: Result<SquadStatus, BridgeError>)
    ensures
        r == squad_status_of(value@),
{
    let v = chars_of(value);
    if chars_eq_str(&v, "Core") {
        Ok(SquadStatus::Core)
    } else if chars_eq_str(&v, "Important") {
        Ok(SquadStatus::Important)
    } else if chars_eq_str(&v, "General") {
        Ok(SquadStatus::General)
    } else if chars_eq_str(&v, "Sub") {
        Ok(SquadStatus::Sub)
    } else if chars_eq_str(&v, "Prospect") {
        Ok(SquadStatus::Prospect)
    } else {
        Err(BridgeError::InvalidSquadStatus)
    }
}

} // verus!
