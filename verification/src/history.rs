//! The global history snapshot: compact JSON records of leagues, league
//! competitions and recent matches, and the per-team match index that the
//! editor's schedule and history views read.

use vstd::prelude::*;
use crate::error::BridgeError;
use crate::json::{
    global_json_value_to_string, json_clone, json_get, json_member, json_text, json_view,
    member_insert, member_views, object_insert, JsonValue, JsonView, lemma_member_views, member_get,
    lemma_get_inserted, lemma_get_other, lemma_get_push,
};
use crate::text::{all_digits, chars_of, decimal_string, decimal_text, digits_value};
use std::collections::HashMap;

verus! {

broadcast use {
    vstd::seq_lib::group_seq_properties,
    vstd::seq_lib::group_to_multiset_ensures,
    vstd::std_specs::hash::group_hash_axioms,
};

/// How many records of each kind a snapshot keeps.
pub const GLOBAL_HISTORY_RECORD_CAP: usize = 10_000;

// ---------------------------------------------------------------------------
// Record helpers
// ---------------------------------------------------------------------------
/// A record with its id added as the member `"id"`, as JSON text; only an
/// object can take it.
pub open spec fn record_with_id(record_id: usize, v: JsonView) -> Result<Seq<char>, BridgeError> {
    match v {
        JsonView::Object(ps) => Ok(
            json_text(
                JsonView::Object(member_insert(ps, "id"@, JsonView::Number(decimal_text(record_id as nat)))),
            ),
        ),
        _ => Err(BridgeError::GlobalRecordNotObject),
    }
}

/// Adds the record id to a record and encodes it.
pub fn global_json_with_id(record_id: usize, value: JsonValue) -> (r: Result<String, BridgeError>)
    ensures
        match r {
            Ok(s) => record_with_id(record_id, value@) == Ok::<Seq<char>, BridgeError>(s@),
            Err(e) => record_with_id(record_id, value@) == Err::<Seq<char>, BridgeError>(e),
        },
{
    match value {
        JsonValue::Object(ps) => {
            let mut members = ps;
            let ghost before = members@;
            let key = String::from_str("id");
            object_insert(&mut members, key, JsonValue::Number(decimal_string(record_id as u128)));
            let record = JsonValue::Object(members);
            Ok(global_json_value_to_string(&record))
        },
        _ => Err(BridgeError::GlobalRecordNotObject),
    }
}

/// `Value::as_u64`: a number written with digits only, within `u64`.
pub open spec fn json_as_u64(v: JsonView) -> Option<nat> {
    match v {
        JsonView::Number(n) => if n.len() > 0 && all_digits(n) && digits_value(n) <= u64::MAX {
            Some(digits_value(n))
        } else {
            None
        },
        _ => None,
    }
}

/// The team id in a match side `{"Normal": id}`.
pub open spec fn normal_team_id(v: JsonView, field: Seq<char>) -> Option<usize> {
    match json_get(v, field) {
        Some(side) => match json_get(side, "Normal"@) {
            Some(n) => match json_as_u64(n) {
                Some(x) => if x <= usize::MAX {
                    Some(x as usize)
                } else {
                    None
                },
                None => None,
            },
            None => None,
        },
        None => None,
    }
}

/// Whether the digits of `v` are all digits, and their value when it is at
/// most `max`.
fn digits_at_most(v: &Vec<char>, max: u128) -> (r: Option<u128>)
    ensures
        match r {
            Some(n) => v@.len() > 0 && all_digits(v@) && n == digits_value(v@) && n <= max,
            None => !(v@.len() > 0 && all_digits(v@) && digits_value(v@) <= max),
        },
{
    if v.len() == 0 || v[0] == '+' {
        if v.len() > 0 {
            assert(!crate::text::is_digit(v@[0]));
        }
        return None;
    }
    proof {
        assert(crate::text::unsigned_body(v@) == v@);
    }
    crate::text::parse_unsigned_chars(v, max)
}

/// Reads the team id on one side of a match.
pub fn global_json_normal_team_id(value: &JsonValue, field: &str) -> (r: Option<usize>)
    ensures
        r == normal_team_id(value@, field@),
{
    let side = match json_member(value, field) {
        Some(s) => s,
        None => return None,
    };
    let n = match json_member(side, "Normal") {
        Some(n) => n,
        None => return None,
    };
    match n {
        JsonValue::Number(text) => {
            match digits_at_most(&chars_of(text.as_str()), u64::MAX as u128) {
                Some(x) => if x <= usize::MAX as u128 {
                    Some(x as usize)
                } else {
                    None
                },
                None => None,
            }
        },
        _ => None,
    }
}

/// Whether a match has ended: its `running_state` has an `End` member.
pub open spec fn match_completed(v: JsonView) -> bool {
    match json_get(v, "running_state"@) {
        Some(s) => json_get(s, "End"@) is Some,
        None => false,
    }
}

/// Whether a match has ended.
pub fn global_json_is_completed_match(value: &JsonValue) -> (r: bool)
    ensures
        r == match_completed(value@),
{
    match json_member(value, "running_state") {
        Some(state) => json_member(state, "End").is_some(),
        None => false,
    }
}

/// The members of `source` named in `fields` that it has, in key order.
pub open spec fn copied_fields(source: JsonView, fields: Seq<Seq<char>>) -> Seq<(Seq<char>, JsonView)>
    decreases fields.len(),
{
    if fields.len() == 0 {
        Seq::empty()
    } else {
        let acc = copied_fields(source, fields.drop_last());
        match json_get(source, fields.last()) {
            Some(v) => member_insert(acc, fields.last(), v),
            None => acc,
        }
    }
}

/// The texts of the field names.
pub open spec fn field_names(fields: Seq<&str>) -> Seq<Seq<char>> {
    fields.map_values(|f: &str| f@)
}

/// Copies the named members of a record into a new object.
pub fn global_json_copy_fields(source: &JsonValue, fields: &[&str]) -> (r: Vec<(String, JsonValue)>)
    ensures
        member_views(r@) == copied_fields(source@, field_names(fields@)),
{
    let mut projected: Vec<(String, JsonValue)> = Vec::new();
    let ghost names = field_names(fields@);
    let mut i: usize = 0;
    while i < fields.len()
        invariant
            i <= fields.len(),
            names == field_names(fields@),
            member_views(projected@) == copied_fields(source@, names.take(i as int)),
        decreases fields.len() - i,
    {
        proof {
            assert(names.take(i + 1).drop_last() == names.take(i as int));
            assert(names.take(i + 1).last() == fields@[i as int]@);
        }
        match json_member(source, fields[i]) {
            Some(v) => {
                let c = json_clone(v);
                object_insert(&mut projected, String::from_str(fields[i]), c);
            },
            None => {},
        }
        i += 1;
    }
    assert(names.take(fields.len() as int) == names);
    projected
}

/// A league reduced to what the editor shows.
pub open spec fn compact_league(v: JsonView) -> JsonView {
    JsonView::Object(copied_fields(v, seq!["region_id"@, "division"@, "name"@]))
}

/// Reduces a league record to its region, division and name.
pub fn global_compact_league_value(value: &JsonValue) -> (r: JsonValue)
    ensures
        r@ == compact_league(value@),
{
    let fields: [&str; 3] = ["region_id", "division", "name"];
    let projected = global_json_copy_fields(value, fields.as_slice());
    proof {
        assert(field_names(fields@) =~= seq!["region_id"@, "division"@, "name"@]);
    }
    JsonValue::Object(projected)
}

/// The members of an object, none for anything else.
pub open spec fn object_members(v: Option<JsonView>) -> Seq<(Seq<char>, JsonView)> {
    match v {
        Some(JsonView::Object(ps)) => ps,
        _ => Seq::empty(),
    }
}

/// Each member's value reduced to the named fields, collected in key order.
pub open spec fn projected_members(ps: Seq<(Seq<char>, JsonView)>, fields: Seq<Seq<char>>) -> Seq<(Seq<char>, JsonView)>
    decreases ps.len(),
{
    if ps.len() == 0 {
        Seq::empty()
    } else {
        member_insert(
            projected_members(ps.drop_last(), fields),
            ps.last().0,
            JsonView::Object(copied_fields(ps.last().1, fields)),
        )
    }
}

/// The members of the object at `key`, each reduced to `fields`.
fn project_members(value: &JsonValue, key: &str, fields: &[&str]) -> (r: Vec<(String, JsonValue)>)
    ensures
        member_views(r@) == projected_members(object_members(json_get(value@, key@)), field_names(fields@)),
{
    let mut out: Vec<(String, JsonValue)> = Vec::new();
    match json_member(value, key) {
        Some(JsonValue::Object(ps)) => {
            let ghost views = member_views(ps@);
            proof {
                lemma_member_views(ps@);
            }
            let mut i: usize = 0;
            while i < ps.len()
                invariant
                    i <= ps.len(),
                    views == member_views(ps@),
                    views.len() == ps@.len(),
                    forall|k: int| 0 <= k < ps@.len() ==> #[trigger] views[k] == (ps@[k].0@, json_view(ps@[k].1)),
                    member_views(out@) == projected_members(views.take(i as int), field_names(fields@)),
                decreases ps.len() - i,
            {
                proof {
                    assert(views.take(i + 1).drop_last() == views.take(i as int));
                    assert(views.take(i + 1).last() == views[i as int]);
                }
                let projected = global_json_copy_fields(&ps[i].1, fields);
                object_insert(&mut out, ps[i].0.clone(), JsonValue::Object(projected));
                i += 1;
            }
            assert(views.take(ps.len() as int) == views);
        },
        _ => {},
    }
    out
}

pub open spec fn standing_fields() -> Seq<Seq<char>> {
    seq!["win"@, "lose"@, "set_win"@, "set_lose"@, "kill"@, "death"@, "assist"@]
}

pub open spec fn player_stat_fields() -> Seq<Seq<char>> {
    seq![
        "matches"@,
        "wins"@,
        "kills"@,
        "deaths"@,
        "assists"@,
        "mvp"@,
        "rating"@,
        "gold"@,
        "dealing"@,
        "healing"@,
        "tanking"@,
        "solo_kill"@,
        "solo_killed"@,
    ]
}

pub open spec fn champion_stat_fields() -> Seq<Seq<char>> {
    seq!["matches"@, "wins"@, "rating"@, "dealing"@, "healing"@, "tanking"@]
}

/// A player's statistics reduced to what the editor shows, with the
/// champion details reduced the same way.
pub open spec fn player_statistics(stats: JsonView) -> JsonView {
    JsonView::Object(
        member_insert(
            copied_fields(stats, player_stat_fields()),
            "champion_detail"@,
            JsonView::Object(
                projected_members(
                    object_members(json_get(stats, "champion_detail"@)),
                    champion_stat_fields(),
                ),
            ),
        ),
    )
}

/// Every player's statistics reduced, collected in key order.
pub open spec fn statistics_members(ps: Seq<(Seq<char>, JsonView)>) -> Seq<(Seq<char>, JsonView)>
    decreases ps.len(),
{
    if ps.len() == 0 {
        Seq::empty()
    } else {
        member_insert(statistics_members(ps.drop_last()), ps.last().0, player_statistics(ps.last().1))
    }
}

/// A league competition reduced to what the editor shows.
pub open spec fn compact_league_competition(v: JsonView) -> JsonView {
    let base = copied_fields(v, seq!["league_type"@, "finalized"@]);
    let with_standings = member_insert(
        base,
        "standings"@,
        JsonView::Object(projected_members(object_members(json_get(v, "standings"@)), standing_fields())),
    );
    JsonView::Object(
        member_insert(
            with_standings,
            "statistics"@,
            JsonView::Object(statistics_members(object_members(json_get(v, "statistics"@)))),
        ),
    )
}

fn player_statistics_value(stats: &JsonValue) -> (r: JsonValue)
    ensures
        r@ == player_statistics(stats@),
{
    let stat_fields: [&str; 13] = [
        "matches",
        "wins",
        "kills",
        "deaths",
        "assists",
        "mvp",
        "rating",
        "gold",
        "dealing",
        "healing",
        "tanking",
        "solo_kill",
        "solo_killed",
    ];
    let champion_fields: [&str; 6] = ["matches", "wins", "rating", "dealing", "healing", "tanking"];
    let mut player = global_json_copy_fields(stats, stat_fields.as_slice());
    let champion_detail = project_members(stats, "champion_detail", champion_fields.as_slice());
    proof {
        assert(field_names(stat_fields@) =~= player_stat_fields());
        assert(field_names(champion_fields@) =~= champion_stat_fields());
    }
    object_insert(&mut player, String::from_str("champion_detail"), JsonValue::Object(champion_detail));
    JsonValue::Object(player)
}

/// Reduces a league competition record to its type, its finalized flag, the
/// standings and the player statistics, each to the fields the editor shows.
pub fn global_compact_league_competition_value(value: &JsonValue) -> (r: JsonValue)
    ensures
        r@ == compact_league_competition(value@),
{
    let root_fields: [&str; 2] = ["league_type", "finalized"];
    let standing: [&str; 7] = ["win", "lose", "set_win", "set_lose", "kill", "death", "assist"];
    let mut projected = global_json_copy_fields(value, root_fields.as_slice());
    let standings = project_members(value, "standings", standing.as_slice());
    proof {
        assert(field_names(root_fields@) =~= seq!["league_type"@, "finalized"@]);
        assert(field_names(standing@) =~= standing_fields());
    }
    object_insert(&mut projected, String::from_str("standings"), JsonValue::Object(standings));
    let mut statistics: Vec<(String, JsonValue)> = Vec::new();
    match json_member(value, "statistics") {
        Some(JsonValue::Object(ps)) => {
            let ghost views = member_views(ps@);
            proof {
                lemma_member_views(ps@);
            }
            let mut i: usize = 0;
            while i < ps.len()
                invariant
                    i <= ps.len(),
                    views == member_views(ps@),
                    views.len() == ps@.len(),
                    forall|k: int| 0 <= k < ps@.len() ==> #[trigger] views[k] == (ps@[k].0@, json_view(ps@[k].1)),
                    member_views(statistics@) == statistics_members(views.take(i as int)),
                decreases ps.len() - i,
            {
                proof {
                    assert(views.take(i + 1).drop_last() == views.take(i as int));
                    assert(views.take(i + 1).last() == views[i as int]);
                }
                let player = player_statistics_value(&ps[i].1);
                object_insert(&mut statistics, ps[i].0.clone(), player);
                i += 1;
            }
            assert(views.take(ps.len() as int) == views);
        },
        _ => {},
    }
    object_insert(&mut projected, String::from_str("statistics"), JsonValue::Object(statistics));
    JsonValue::Object(projected)
}

/// One side of a match reduced to `{"Normal": id}`, when it names a team.
pub open spec fn with_team(p: Seq<(Seq<char>, JsonView)>, v: JsonView, field: Seq<char>) -> Seq<(Seq<char>, JsonView)> {
    match normal_team_id(v, field) {
        Some(id) => member_insert(
            p,
            field,
            JsonView::Object(seq![("Normal"@, JsonView::Number(decimal_text(id as nat)))]),
        ),
        None => p,
    }
}

/// The running state: an ended match keeps its scores and winner, a running
/// one keeps `"Running"`, anything else is left out.
pub open spec fn with_state(p: Seq<(Seq<char>, JsonView)>, v: JsonView) -> Seq<(Seq<char>, JsonView)> {
    match json_get(v, "running_state"@) {
        Some(rs) => match json_get(rs, "End"@) {
            Some(end) => member_insert(
                p,
                "running_state"@,
                JsonView::Object(
                    seq![
                        ("End"@, JsonView::Object(
                            copied_fields(end, seq!["team1_score"@, "team2_score"@, "winner"@]),
                        )),
                    ],
                ),
            ),
            None => if rs == JsonView::Str("Running"@) {
                member_insert(p, "running_state"@, rs)
            } else {
                p
            },
        },
        None => p,
    }
}

/// A compacted record holds a named field exactly when the source has it,
/// with the source's value, and nothing else.
pub proof fn lemma_copied_get(source: JsonView, fields: Seq<Seq<char>>, f: Seq<char>)
    ensures
        member_get(copied_fields(source, fields), f) == if fields.contains(f) {
            json_get(source, f)
        } else {
            None
        },
    decreases fields.len(),
{
    if fields.len() > 0 {
        let front = fields.drop_last();
        let last = fields.last();
        lemma_copied_get(source, front, f);
        assert(fields == front.push(last));
        assert(fields.contains(f) <==> (front.contains(f) || last == f)) by {
            if fields.contains(f) {
                let i = choose|i: int| 0 <= i < fields.len() && fields[i] == f;
                if i < front.len() {
                    assert(front[i] == f);
                }
            }
            if front.contains(f) {
                let i = choose|i: int| 0 <= i < front.len() && front[i] == f;
                assert(fields[i] == f);
            }
            if last == f {
                assert(fields[fields.len() - 1] == f);
            }
        }
        match json_get(source, last) {
            Some(x) => {
                if f == last {
                    lemma_get_inserted(copied_fields(source, front), last, x);
                } else {
                    lemma_get_other(copied_fields(source, front), last, x, f);
                }
            },
            None => {},
        }
    } else {
        assert(!fields.contains(f));
    }
}

proof fn lemma_three_contains(a: Seq<char>, b: Seq<char>, c: Seq<char>, f: Seq<char>)
    ensures
        seq![a, b, c].contains(f) <==> (f == a || f == b || f == c),
{
    let s = seq![a, b, c];
    if f == a {
        assert(s[0] == f);
    } else if f == b {
        assert(s[1] == f);
    } else if f == c {
        assert(s[2] == f);
    }
}

/// A compacted league holds its source's region, division and name, and
/// no other field.
pub proof fn lemma_compact_league_fields(v: JsonView, f: Seq<char>)
    ensures
        json_get(compact_league(v), f) == if f == "region_id"@ || f == "division"@ || f == "name"@ {
            json_get(v, f)
        } else {
            None
        },
{
    lemma_copied_get(v, seq!["region_id"@, "division"@, "name"@], f);
    lemma_three_contains("region_id"@, "division"@, "name"@, f);
}

/// A match reduced to what the schedule and history views show.
pub open spec fn compact_match(v: JsonView) -> JsonView {
    let base = copied_fields(v, seq!["date"@, "is_practice"@, "replays"@]);
    JsonView::Object(with_state(with_team(with_team(base, v, "team1"@), v, "team2"@), v))
}

/// No two members of an object share a key, as in a parsed JSON object.
pub open spec fn keys_distinct(ps: Seq<(Seq<char>, JsonView)>) -> bool {
    forall|i: int, j: int| 0 <= i < j < ps.len() ==> ps[i].0 != ps[j].0
}

proof fn lemma_front_get(ps: Seq<(Seq<char>, JsonView)>, k: Seq<char>)
    requires
        ps.len() > 0,
        keys_distinct(ps),
    ensures
        member_get(ps, k) == if ps.last().0 == k {
            Some(ps.last().1)
        } else {
            member_get(ps.drop_last(), k)
        },
        keys_distinct(ps.drop_last()),
{
    let front = ps.drop_last();
    assert(ps == front.push(ps.last()));
    lemma_get_push(front, ps.last(), k);
    if ps.last().0 == k {
        assert(member_get(front, k) is None) by {
            lemma_get_absent(front, k, ps.last());
        }
    }
}

proof fn lemma_get_absent(front: Seq<(Seq<char>, JsonView)>, k: Seq<char>, e: (Seq<char>, JsonView))
    requires
        keys_distinct(front.push(e)),
        e.0 == k,
    ensures
        member_get(front, k) is None,
    decreases front.len(),
{
    if front.len() > 0 {
        let all = front.push(e);
        assert(all[0] == front[0] && all[all.len() - 1] == e);
        assert(front[0].0 != k);
        let rest = front.drop_first();
        assert forall|i: int, j: int| 0 <= i < j < rest.push(e).len() implies rest.push(e)[i].0 != rest.push(
            e,
        )[j].0 by {
            assert(rest.push(e)[i] == all[i + 1]);
            assert(rest.push(e)[j] == all[j + 1]);
        }
        lemma_get_absent(rest, k, e);
    }
}

/// Each member of an object reduced to `fields`, found by its key.
pub proof fn lemma_projected_get(ps: Seq<(Seq<char>, JsonView)>, fields: Seq<Seq<char>>, k: Seq<char>)
    requires
        keys_distinct(ps),
    ensures
        member_get(projected_members(ps, fields), k) == match member_get(ps, k) {
            Some(x) => Some(JsonView::Object(copied_fields(x, fields))),
            None => None,
        },
    decreases ps.len(),
{
    if ps.len() > 0 {
        lemma_front_get(ps, k);
        lemma_projected_get(ps.drop_last(), fields, k);
        let e = ps.last();
        if e.0 == k {
            lemma_get_inserted(projected_members(ps.drop_last(), fields), e.0, JsonView::Object(copied_fields(e.1, fields)));
        } else {
            lemma_get_other(projected_members(ps.drop_last(), fields), e.0, JsonView::Object(copied_fields(e.1, fields)), k);
        }
    }
}

/// Each player's statistics, found by the player's key.
pub proof fn lemma_statistics_get(ps: Seq<(Seq<char>, JsonView)>, k: Seq<char>)
    requires
        keys_distinct(ps),
    ensures
        member_get(statistics_members(ps), k) == match member_get(ps, k) {
            Some(x) => Some(player_statistics(x)),
            None => None,
        },
    decreases ps.len(),
{
    if ps.len() > 0 {
        lemma_front_get(ps, k);
        lemma_statistics_get(ps.drop_last(), k);
        let e = ps.last();
        if e.0 == k {
            lemma_get_inserted(statistics_members(ps.drop_last()), e.0, player_statistics(e.1));
        } else {
            lemma_get_other(statistics_members(ps.drop_last()), e.0, player_statistics(e.1), k);
        }
    }
}

proof fn lemma_in_fields(fields: Seq<Seq<char>>, f: Seq<char>, i: int)
    requires
        0 <= i < fields.len(),
        fields[i] == f,
    ensures
        fields.contains(f),
{
}

/// A compacted league competition keeps the league type and whether it is
/// finalized; each team's standing keeps exactly its wins, losses, set wins,
/// set losses, kills, deaths and assists; each player's statistics keep
/// their thirteen counts, and each champion in them its six counts, with
/// the source's values (members found by key, keys being distinct as in any
/// JSON object).
pub proof fn lemma_compact_competition_fields(v: JsonView, team: Seq<char>, player: Seq<char>, champion: Seq<char>, f: Seq<char>)
    requires
        keys_distinct(object_members(json_get(v, "standings"@))),
        keys_distinct(object_members(json_get(v, "statistics"@))),
        match member_get(object_members(json_get(v, "statistics"@)), player) {
            Some(x) => keys_distinct(object_members(json_get(x, "champion_detail"@))),
            None => true,
        },
    ensures
        json_get(compact_league_competition(v), "league_type"@) == json_get(v, "league_type"@),
        json_get(compact_league_competition(v), "finalized"@) == json_get(v, "finalized"@),
        json_get(compact_league_competition(v), "standings"@) matches Some(cs) && match member_get(
            object_members(json_get(v, "standings"@)),
            team,
        ) {
            Some(x) => json_get(cs, team) matches Some(ct) && json_get(ct, f) == if f == "win"@ || f
                == "lose"@ || f == "set_win"@ || f == "set_lose"@ || f == "kill"@ || f == "death"@ || f
                == "assist"@ {
                json_get(x, f)
            } else {
                None
            },
            None => json_get(cs, team) is None,
        },
        json_get(compact_league_competition(v), "statistics"@) matches Some(cstats) && match member_get(
            object_members(json_get(v, "statistics"@)),
            player,
        ) {
            Some(x) => json_get(cstats, player) matches Some(cp) && (f == "matches"@ || f == "wins"@ || f
                == "kills"@ || f == "deaths"@ || f == "assists"@ || f == "mvp"@ || f == "rating"@ || f
                == "gold"@ || f == "dealing"@ || f == "healing"@ || f == "tanking"@ || f == "solo_kill"@
                || f == "solo_killed"@ ==> json_get(cp, f) == json_get(x, f)) && (json_get(cp, "champion_detail"@)
                matches Some(cd) && match member_get(object_members(json_get(x, "champion_detail"@)), champion) {
                Some(ch) => json_get(cd, champion) matches Some(cc) && (f == "matches"@ || f == "wins"@ || f
                    == "rating"@ || f == "dealing"@ || f == "healing"@ || f == "tanking"@ ==> json_get(cc, f)
                    == json_get(ch, f)),
                None => json_get(cd, champion) is None,
            }),
            None => json_get(cstats, player) is None,
        },
{
    lemma_competition_names();
    let base = copied_fields(v, seq!["league_type"@, "finalized"@]);
    let st = JsonView::Object(projected_members(object_members(json_get(v, "standings"@)), standing_fields()));
    let with_standings = member_insert(base, "standings"@, st);
    let sts = JsonView::Object(statistics_members(object_members(json_get(v, "statistics"@))));
    lemma_get_inserted(with_standings, "statistics"@, sts);
    lemma_get_other(with_standings, "statistics"@, sts, "standings"@);
    lemma_get_inserted(base, "standings"@, st);
    lemma_get_other(with_standings, "statistics"@, sts, "league_type"@);
    lemma_get_other(with_standings, "statistics"@, sts, "finalized"@);
    lemma_get_other(base, "standings"@, st, "league_type"@);
    lemma_get_other(base, "standings"@, st, "finalized"@);
    lemma_copied_get(v, seq!["league_type"@, "finalized"@], "league_type"@);
    lemma_copied_get(v, seq!["league_type"@, "finalized"@], "finalized"@);
    lemma_in_fields(seq!["league_type"@, "finalized"@], "league_type"@, 0);
    lemma_in_fields(seq!["league_type"@, "finalized"@], "finalized"@, 1);
    // standings
    lemma_projected_get(object_members(json_get(v, "standings"@)), standing_fields(), team);
    match member_get(object_members(json_get(v, "standings"@)), team) {
        Some(x) => {
            lemma_copied_get(x, standing_fields(), f);
            lemma_standing_field(f);
        },
        None => {},
    }
    // statistics
    lemma_statistics_get(object_members(json_get(v, "statistics"@)), player);
    match member_get(object_members(json_get(v, "statistics"@)), player) {
        Some(x) => {
            let stats = copied_fields(x, player_stat_fields());
            let cds = JsonView::Object(projected_members(object_members(json_get(x, "champion_detail"@)), champion_stat_fields()));
            lemma_get_inserted(stats, "champion_detail"@, cds);
            lemma_player_stat_field(f);
            if f != "champion_detail"@ {
                lemma_get_other(stats, "champion_detail"@, cds, f);
            }
            lemma_copied_get(x, player_stat_fields(), f);
            lemma_projected_get(object_members(json_get(x, "champion_detail"@)), champion_stat_fields(), champion);
            match member_get(object_members(json_get(x, "champion_detail"@)), champion) {
                Some(ch) => {
                    lemma_copied_get(ch, champion_stat_fields(), f);
                    lemma_champion_stat_field(f);
                },
                None => {},
            }
        },
        None => {},
    }
}

proof fn lemma_competition_names()
    ensures
        "statistics"@ != "standings"@,
        "statistics"@ != "league_type"@,
        "statistics"@ != "finalized"@,
        "standings"@ != "league_type"@,
        "standings"@ != "finalized"@,
{
    reveal_strlit("statistics");
    reveal_strlit("standings");
    reveal_strlit("league_type");
    reveal_strlit("finalized");
    assert("statistics"@.len() == 10 && "standings"@.len() == 9 && "league_type"@.len() == 11);
    assert("finalized"@.len() == 9 && "standings"@[1] != "finalized"@[1]);
}

proof fn lemma_standing_field(f: Seq<char>)
    ensures
        standing_fields().contains(f) <==> (f == "win"@ || f == "lose"@ || f == "set_win"@ || f
            == "set_lose"@ || f == "kill"@ || f == "death"@ || f == "assist"@),
{
    let s = standing_fields();
    if s.contains(f) {
        let i = choose|i: int| 0 <= i < s.len() && s[i] == f;
        assert(0 <= i < 7);
    }
    if f == "win"@ { lemma_in_fields(s, f, 0); }
    if f == "lose"@ { lemma_in_fields(s, f, 1); }
    if f == "set_win"@ { lemma_in_fields(s, f, 2); }
    if f == "set_lose"@ { lemma_in_fields(s, f, 3); }
    if f == "kill"@ { lemma_in_fields(s, f, 4); }
    if f == "death"@ { lemma_in_fields(s, f, 5); }
    if f == "assist"@ { lemma_in_fields(s, f, 6); }
}

proof fn lemma_player_stat_field(f: Seq<char>)
    ensures
        (f == "matches"@ || f == "wins"@ || f == "kills"@ || f == "deaths"@ || f == "assists"@ || f
            == "mvp"@ || f == "rating"@ || f == "gold"@ || f == "dealing"@ || f == "healing"@ || f
            == "tanking"@ || f == "solo_kill"@ || f == "solo_killed"@) ==> player_stat_fields().contains(f)
            && f != "champion_detail"@,
{
    let s = player_stat_fields();
    reveal_strlit("champion_detail");
    reveal_strlit("matches");
    reveal_strlit("wins");
    reveal_strlit("kills");
    reveal_strlit("deaths");
    reveal_strlit("assists");
    reveal_strlit("mvp");
    reveal_strlit("rating");
    reveal_strlit("gold");
    reveal_strlit("dealing");
    reveal_strlit("healing");
    reveal_strlit("tanking");
    reveal_strlit("solo_kill");
    reveal_strlit("solo_killed");
    assert("champion_detail"@.len() == 15);
    assert("solo_killed"@.len() == 11 && "solo_kill"@.len() == 9 && "matches"@.len() == 7);
    assert("tanking"@.len() == 7 && "healing"@.len() == 7 && "dealing"@.len() == 7 && "assists"@.len() == 7);
    assert("deaths"@.len() == 6 && "rating"@.len() == 6 && "kills"@.len() == 5 && "wins"@.len() == 4);
    assert("mvp"@.len() == 3 && "gold"@.len() == 4);
    if f == "matches"@ { lemma_in_fields(s, f, 0); }
    if f == "wins"@ { lemma_in_fields(s, f, 1); }
    if f == "kills"@ { lemma_in_fields(s, f, 2); }
    if f == "deaths"@ { lemma_in_fields(s, f, 3); }
    if f == "assists"@ { lemma_in_fields(s, f, 4); }
    if f == "mvp"@ { lemma_in_fields(s, f, 5); }
    if f == "rating"@ { lemma_in_fields(s, f, 6); }
    if f == "gold"@ { lemma_in_fields(s, f, 7); }
    if f == "dealing"@ { lemma_in_fields(s, f, 8); }
    if f == "healing"@ { lemma_in_fields(s, f, 9); }
    if f == "tanking"@ { lemma_in_fields(s, f, 10); }
    if f == "solo_kill"@ { lemma_in_fields(s, f, 11); }
    if f == "solo_killed"@ { lemma_in_fields(s, f, 12); }
}

proof fn lemma_champion_stat_field(f: Seq<char>)
    ensures
        (f == "matches"@ || f == "wins"@ || f == "rating"@ || f == "dealing"@ || f == "healing"@ || f
            == "tanking"@) ==> champion_stat_fields().contains(f),
{
    let s = champion_stat_fields();
    if f == "matches"@ { lemma_in_fields(s, f, 0); }
    if f == "wins"@ { lemma_in_fields(s, f, 1); }
    if f == "rating"@ { lemma_in_fields(s, f, 2); }
    if f == "dealing"@ { lemma_in_fields(s, f, 3); }
    if f == "healing"@ { lemma_in_fields(s, f, 4); }
    if f == "tanking"@ { lemma_in_fields(s, f, 5); }
}

/// The field names a compacted match uses, told apart.
proof fn lemma_match_names()
    ensures
        "team1"@ != "team2"@,
        "running_state"@ != "team1"@,
        "running_state"@ != "team2"@,
        "date"@ != "team1"@ && "date"@ != "team2"@ && "date"@ != "running_state"@,
        "is_practice"@ != "team1"@ && "is_practice"@ != "team2"@ && "is_practice"@ != "running_state"@,
        "replays"@ != "team1"@ && "replays"@ != "team2"@ && "replays"@ != "running_state"@,
        "team1"@ != "date"@ && "team1"@ != "is_practice"@ && "team1"@ != "replays"@,
        "team2"@ != "date"@ && "team2"@ != "is_practice"@ && "team2"@ != "replays"@,
        "running_state"@ != "date"@ && "running_state"@ != "is_practice"@ && "running_state"@
            != "replays"@,
{
    reveal_strlit("team1");
    reveal_strlit("team2");
    reveal_strlit("running_state");
    reveal_strlit("date");
    reveal_strlit("is_practice");
    reveal_strlit("replays");
    assert("team1"@[4] != "team2"@[4]);
    assert("date"@.len() == 4 && "team1"@.len() == 5 && "team2"@.len() == 5);
    assert("is_practice"@.len() == 11 && "replays"@.len() == 7 && "running_state"@.len() == 13);
}

/// Adding the running state leaves every other member as it was.
proof fn lemma_state_other(p: Seq<(Seq<char>, JsonView)>, v: JsonView, f: Seq<char>)
    requires
        f != "running_state"@,
    ensures
        member_get(with_state(p, v), f) == member_get(p, f),
{
    match json_get(v, "running_state"@) {
        Some(rs) => match json_get(rs, "End"@) {
            Some(end) => {
                lemma_get_other(
                    p,
                    "running_state"@,
                    JsonView::Object(
                        seq![("End"@, JsonView::Object(copied_fields(end, seq!["team1_score"@, "team2_score"@, "winner"@])))],
                    ),
                    f,
                );
            },
            None => {
                if rs == JsonView::Str("Running"@) {
                    lemma_get_other(p, "running_state"@, rs, f);
                }
            },
        },
        None => {},
    }
}

/// A compacted match keeps its date, practice flag and replays as they
/// are, each side that names a team as `{"Normal": id}` (and no side that
/// names none), and, for an ended match, the scores of both teams and the
/// winner with the source's values.
pub proof fn lemma_compact_match_fields(v: JsonView)
    ensures
        json_get(compact_match(v), "date"@) == json_get(v, "date"@),
        json_get(compact_match(v), "is_practice"@) == json_get(v, "is_practice"@),
        json_get(compact_match(v), "replays"@) == json_get(v, "replays"@),
        json_get(compact_match(v), "team1"@) == match normal_team_id(v, "team1"@) {
            Some(id) => Some(JsonView::Object(seq![("Normal"@, JsonView::Number(decimal_text(id as nat)))])),
            None => None::<JsonView>,
        },
        json_get(compact_match(v), "team2"@) == match normal_team_id(v, "team2"@) {
            Some(id) => Some(JsonView::Object(seq![("Normal"@, JsonView::Number(decimal_text(id as nat)))])),
            None => None::<JsonView>,
        },
        match json_get(v, "running_state"@) {
            Some(rs) => match json_get(rs, "End"@) {
                Some(end) => json_get(compact_match(v), "running_state"@) matches Some(crs) && json_get(
                    crs,
                    "End"@,
                ) matches Some(cend) && json_get(cend, "team1_score"@) == json_get(end, "team1_score"@)
                    && json_get(cend, "team2_score"@) == json_get(end, "team2_score"@) && json_get(
                    cend,
                    "winner"@,
                ) == json_get(end, "winner"@),
                None => true,
            },
            None => true,
        },
{
    lemma_match_names();
    let base = copied_fields(v, seq!["date"@, "is_practice"@, "replays"@]);
    let p1 = with_team(base, v, "team1"@);
    let p2 = with_team(p1, v, "team2"@);
    let p3 = with_state(p2, v);
    let side = |id: usize| JsonView::Object(seq![("Normal"@, JsonView::Number(decimal_text(id as nat)))]);
    lemma_state_other(p2, v, "date"@);
    lemma_state_other(p2, v, "is_practice"@);
    lemma_state_other(p2, v, "replays"@);
    lemma_state_other(p2, v, "team1"@);
    lemma_state_other(p2, v, "team2"@);
    // team2 insert
    let t2 = normal_team_id(v, "team2"@);
    let t1 = normal_team_id(v, "team1"@);
    assert forall|f: Seq<char>| f != "team2"@ implies #[trigger] member_get(p2, f) == member_get(p1, f) by {
        if let Some(id) = t2 {
            lemma_get_other(p1, "team2"@, side(id), f);
        }
    }
    assert forall|f: Seq<char>| f != "team1"@ implies #[trigger] member_get(p1, f) == member_get(base, f) by {
        if let Some(id) = t1 {
            lemma_get_other(base, "team1"@, side(id), f);
        }
    }
    if let Some(id) = t2 {
        lemma_get_inserted(p1, "team2"@, side(id));
    } else {
        lemma_copied_get(v, seq!["date"@, "is_practice"@, "replays"@], "team2"@);
        lemma_three_contains("date"@, "is_practice"@, "replays"@, "team2"@);
    }
    if let Some(id) = t1 {
        lemma_get_inserted(base, "team1"@, side(id));
    } else {
        lemma_copied_get(v, seq!["date"@, "is_practice"@, "replays"@], "team1"@);
        lemma_three_contains("date"@, "is_practice"@, "replays"@, "team1"@);
    }
    lemma_copied_get(v, seq!["date"@, "is_practice"@, "replays"@], "date"@);
    lemma_copied_get(v, seq!["date"@, "is_practice"@, "replays"@], "is_practice"@);
    lemma_copied_get(v, seq!["date"@, "is_practice"@, "replays"@], "replays"@);
    lemma_three_contains("date"@, "is_practice"@, "replays"@, "date"@);
    lemma_three_contains("date"@, "is_practice"@, "replays"@, "is_practice"@);
    lemma_three_contains("date"@, "is_practice"@, "replays"@, "replays"@);
    match json_get(v, "running_state"@) {
        Some(rs) => match json_get(rs, "End"@) {
            Some(end) => {
                let names = seq!["team1_score"@, "team2_score"@, "winner"@];
                let kept = copied_fields(end, names);
                let state = JsonView::Object(seq![("End"@, JsonView::Object(kept))]);
                lemma_get_inserted(p2, "running_state"@, state);
                assert(json_get(state, "End"@) == Some(JsonView::Object(kept)));
                lemma_copied_get(end, names, "team1_score"@);
                lemma_copied_get(end, names, "team2_score"@);
                lemma_copied_get(end, names, "winner"@);
                lemma_three_contains("team1_score"@, "team2_score"@, "winner"@, "team1_score"@);
                lemma_three_contains("team1_score"@, "team2_score"@, "winner"@, "team2_score"@);
                lemma_three_contains("team1_score"@, "team2_score"@, "winner"@, "winner"@);
            },
            None => {},
        },
        None => {},
    }
}

/// `{"Normal": id}`.
fn normal_side(id: usize) -> (r: JsonValue)
    ensures
        r@ == JsonView::Object(seq![("Normal"@, JsonView::Number(decimal_text(id as nat)))]),
{
    let mut side: Vec<(String, JsonValue)> = Vec::new();
    object_insert(&mut side, String::from_str("Normal"), JsonValue::Number(decimal_string(id as u128)));
    proof {
        lemma_member_views(side@);
    }
    JsonValue::Object(side)
}

/// Reduces a match record to its date, practice flag, replays, the team on
/// each side and its end state.
pub fn global_compact_match_value(value: &JsonValue) -> (r: JsonValue)
    ensures
        r@ == compact_match(value@),
{
    let root_fields: [&str; 3] = ["date", "is_practice", "replays"];
    let mut projected = global_json_copy_fields(value, root_fields.as_slice());
    proof {
        assert(field_names(root_fields@) =~= seq!["date"@, "is_practice"@, "replays"@]);
    }
    match global_json_normal_team_id(value, "team1") {
        Some(id) => object_insert(&mut projected, String::from_str("team1"), normal_side(id)),
        None => {},
    }
    match global_json_normal_team_id(value, "team2") {
        Some(id) => object_insert(&mut projected, String::from_str("team2"), normal_side(id)),
        None => {},
    }
    match json_member(value, "running_state") {
        Some(running_state) => {
            match json_member(running_state, "End") {
                Some(end) => {
                    let end_fields: [&str; 3] = ["team1_score", "team2_score", "winner"];
                    let scores = global_json_copy_fields(end, end_fields.as_slice());
                    proof {
                        assert(field_names(end_fields@) =~= seq!["team1_score"@, "team2_score"@, "winner"@]);
                    }
                    let mut state: Vec<(String, JsonValue)> = Vec::new();
                    object_insert(&mut state, String::from_str("End"), JsonValue::Object(scores));
                    proof {
                        lemma_member_views(state@);
                    }
                    object_insert(&mut projected, String::from_str("running_state"), JsonValue::Object(state));
                },
                None => {
                    let running = match running_state {
                        JsonValue::Str(s) => crate::text::chars_eq_str(&chars_of(s.as_str()), "Running"),
                        _ => false,
                    };
                    if running {
                        object_insert(&mut projected, String::from_str("running_state"), json_clone(running_state));
                    }
                },
            }
        },
        None => {},
    }
    JsonValue::Object(projected)
}

// ---------------------------------------------------------------------------
// Recent matches
// ---------------------------------------------------------------------------
pub open spec fn ascending(s: Seq<usize>) -> bool {
    forall|i: int, j: int| 0 <= i <= j < s.len() ==> s[i] <= s[j]
}

/// `r` is the `cap` highest of the ids (all of them when there are fewer),
/// in ascending order.
pub open spec fn recent_selection(ids: Seq<usize>, cap: nat, r: Seq<usize>) -> bool {
    &&& ascending(r)
    &&& r.len() == if ids.len() < cap {
        ids.len()
    } else {
        cap
    }
    &&& forall|x: usize| r.to_multiset().count(x) <= ids.to_multiset().count(x)
    &&& forall|x: usize|
        #![trigger ids.to_multiset().count(x)]
        ids.to_multiset().count(x) > r.to_multiset().count(x) ==> r.len() == 0 || x <= r[0]
}

/// Keeps the `cap` highest match ids, in ascending order.
pub fn select_recent_global_match_ids(record_ids: Vec<usize>, cap: usize) -> (r: Vec<usize>)
    ensures
        recent_selection(record_ids@, cap as nat, r@),
{
    let mut sorted: Vec<usize> = Vec::new();
    let mut k: usize = 0;
    while k < record_ids.len()
        invariant
            k <= record_ids.len(),
            ascending(sorted@),
            sorted@.to_multiset() == record_ids@.take(k as int).to_multiset(),
        decreases record_ids.len() - k,
    {
        let x = record_ids[k];
        let mut j = sorted.len();
        while j > 0 && sorted[j - 1] > x
            invariant
                j <= sorted.len(),
                forall|i: int| j <= i < sorted@.len() ==> sorted@[i] > x,
            decreases j,
        {
            j -= 1;
        }
        let ghost before = sorted@;
        sorted.insert(j, x);
        proof {
            before.insert_ensures(j as int, x);
            assert forall|a: int, b: int| 0 <= a <= b < sorted@.len() implies sorted@[a] <= sorted@[b] by {
                if a < j && b < j {
                } else if a < j && b == j {
                    assert(before[a] <= before[j - 1]);
                } else if a < j {
                    assert(sorted@[b] == before[b - 1]);
                    assert(before[a] <= before[b - 1]);
                } else if a == j && b > j {
                    assert(sorted@[b] == before[b - 1]);
                } else if a > j {
                    assert(sorted@[a] == before[a - 1] && sorted@[b] == before[b - 1]);
                }
            }
            assert(record_ids@.take(k + 1) == record_ids@.take(k as int).push(x));
            vstd::seq_lib::to_multiset_insert(before, j as int, x);
        }
        k += 1;
    }
    assert(record_ids@.take(record_ids.len() as int) == record_ids@);
    let n = sorted.len();
    let m = if cap < n {
        cap
    } else {
        n
    };
    let start = n - m;
    let mut r: Vec<usize> = Vec::new();
    let mut i = start;
    while i < n
        invariant
            start <= i <= n,
            n == sorted@.len(),
            r@ == sorted@.subrange(start as int, i as int),
        decreases n - i,
    {
        r.push(sorted[i]);
        i += 1;
        assert(sorted@.subrange(start as int, i as int) == sorted@.subrange(start as int, i - 1).push(sorted@[i - 1]));
    }
    proof {
        let t = sorted@.take(start as int);
        assert(sorted@ == t + r@);
        vstd::seq_lib::lemma_multiset_commutative(t, r@);
        assert(sorted@.to_multiset() == record_ids@.to_multiset());
        assert(sorted@.len() == sorted@.to_multiset().len());
        assert(record_ids@.len() == record_ids@.to_multiset().len());
        assert(r@.len() == m);
        assert(ascending(r@)) by {
            assert forall|a: int, b: int| 0 <= a <= b < r@.len() implies r@[a] <= r@[b] by {
                assert(r@[a] == sorted@[start + a] && r@[b] == sorted@[start + b]);
            }
        }
        assert forall|x: usize| r@.to_multiset().count(x) <= record_ids@.to_multiset().count(x) by {
            assert(sorted@.to_multiset().count(x) == t.to_multiset().count(x) + r@.to_multiset().count(x));
        }
        assert forall|x: usize| #![trigger record_ids@.to_multiset().count(x)]
            record_ids@.to_multiset().count(x) > r@.to_multiset().count(x) implies r@.len() == 0 || x <= r@[0] by {
            if r@.len() > 0 {
                assert(sorted@.to_multiset().count(x) == t.to_multiset().count(x) + r@.to_multiset().count(x));
                assert(t.to_multiset().count(x) > 0);
                assert(t.contains(x));
                let i = choose|i: int| 0 <= i < t.len() && t[i] == x;
                assert(sorted@[i] == x);
                assert(sorted@[start as int] == r@[0]);
            }
        }
    }
    r
}

// ---------------------------------------------------------------------------
// The snapshot
// ---------------------------------------------------------------------------
/// A compact match record and whether the match has ended.
pub struct GlobalMatchRecord {
    pub json: String,
    pub completed: bool,
}

/// What one capture kept and how large it was.
#[derive(Clone, Copy, Debug)]
pub struct GlobalHistoryCaptureMetrics {
    pub league_source_records: usize,
    pub league_retained_records: usize,
    pub league_bytes: usize,
    pub league_competition_source_records: usize,
    pub league_competition_retained_records: usize,
    pub league_competition_bytes: usize,
    pub match_source_records: usize,
    pub match_scanned_records: usize,
    pub match_retained_records: usize,
    pub match_dropped_records: usize,
    pub match_oldest_retained_id: Option<usize>,
    pub match_newest_retained_id: Option<usize>,
    pub match_indexed_teams: usize,
    pub match_index_entries: usize,
    pub match_bytes: usize,
    pub snapshot_bytes: usize,
    pub largest_record_bytes: usize,
    pub capture_micros: u64,
}

impl Default for GlobalHistoryCaptureMetrics {
    fn default() -> (r: Self)
        ensures
            r.league_source_records == 0 && r.league_retained_records == 0 && r.league_bytes == 0,
            r.league_competition_source_records == 0 && r.league_competition_retained_records == 0
                && r.league_competition_bytes == 0,
            r.match_source_records == 0 && r.match_scanned_records == 0 && r.match_retained_records
                == 0 && r.match_dropped_records == 0,
            r.match_oldest_retained_id is None && r.match_newest_retained_id is None,
            r.match_indexed_teams == 0 && r.match_index_entries == 0 && r.match_bytes == 0,
            r.snapshot_bytes == 0 && r.largest_record_bytes == 0 && r.capture_micros == 0,
    {
        GlobalHistoryCaptureMetrics {
            league_source_records: 0,
            league_retained_records: 0,
            league_bytes: 0,
            league_competition_source_records: 0,
            league_competition_retained_records: 0,
            league_competition_bytes: 0,
            match_source_records: 0,
            match_scanned_records: 0,
            match_retained_records: 0,
            match_dropped_records: 0,
            match_oldest_retained_id: None,
            match_newest_retained_id: None,
            match_indexed_teams: 0,
            match_index_entries: 0,
            match_bytes: 0,
            snapshot_bytes: 0,
            largest_record_bytes: 0,
            capture_micros: 0,
        }
    }
}

/// The global history captured at one moment: compact records and, for
/// each team, the positions of its matches among the match records.
pub struct GlobalHistorySnapshot {
    pub capture_index: usize,
    pub league_records: Vec<String>,
    pub league_competition_records: HashMap<usize, String>,
    pub match_records: Vec<GlobalMatchRecord>,
    pub team_match_indices: HashMap<usize, Vec<usize>>,
    pub metrics: GlobalHistoryCaptureMetrics,
}

impl Default for GlobalHistorySnapshot {
    fn default() -> (r: Self)
        ensures
            r.capture_index == 0,
            r.league_records@.len() == 0,
            r.league_competition_records@ == Map::<usize, String>::empty(),
            r.match_records@.len() == 0,
            r.team_match_indices@ == Map::<usize, Vec<usize>>::empty(),
    {
        GlobalHistorySnapshot {
            capture_index: 0,
            league_records: Vec::new(),
            league_competition_records: HashMap::new(),
            match_records: Vec::new(),
            team_match_indices: HashMap::new(),
            metrics: GlobalHistoryCaptureMetrics::default(),
        }
    }
}

/// The match positions listed for a team.
pub open spec fn team_indices(m: Map<usize, Vec<usize>>, team_id: usize) -> Seq<usize> {
    if m.contains_key(team_id) {
        m[team_id]@
    } else {
        Seq::empty()
    }
}

/// Adds a match position to a team's list; nothing when the match side
/// names no team.
pub fn index_global_match_for_team(
    team_match_indices: &mut HashMap<usize, Vec<usize>>,
    team_id: Option<usize>,
    record_index: usize,
)
    ensures
        match team_id {
            None => final(team_match_indices)@ == old(team_match_indices)@,
            Some(t) => {
                &&& final(team_match_indices)@.dom() == old(team_match_indices)@.dom().insert(t)
                &&& forall|k: usize| k != t && #[trigger] old(team_match_indices)@.contains_key(k) ==> final(team_match_indices)@[k] == old(team_match_indices)@[k]
                &&& team_indices(final(team_match_indices)@, t) == team_indices(old(team_match_indices)@, t).push(record_index)
            },
        },
{
    if let Some(t) = team_id {
        let mut list = match team_match_indices.remove(&t) {
            Some(v) => v,
            None => Vec::new(),
        };
        list.push(record_index);
        team_match_indices.insert(t, list);
        proof {
            assert(final(team_match_indices)@.dom() =~= old(team_match_indices)@.dom().insert(t));
        }
    }
}

/// A match record as values: its JSON text and whether it has ended.
pub open spec fn record_views(rs: Seq<GlobalMatchRecord>) -> Seq<(Seq<char>, bool)> {
    rs.map_values(|r: GlobalMatchRecord| (r.json@, r.completed))
}

/// The records at the listed positions that exist, in list order, only the
/// ended ones when `completed_only`.
pub open spec fn team_records(records: Seq<(Seq<char>, bool)>, indices: Seq<usize>, completed_only: bool) -> Seq<Seq<char>>
    decreases indices.len(),
{
    if indices.len() == 0 {
        Seq::empty()
    } else {
        let before = team_records(records, indices.drop_last(), completed_only);
        let i = indices.last();
        if i < records.len() && (!completed_only || records[i as int].1) {
            before.push(records[i as int].0)
        } else {
            before
        }
    }
}

/// A team's schedule lists the record at every indexed position, in index
/// order, whether the match has ended or not.
pub proof fn lemma_schedule_lists_every_match(records: Seq<(Seq<char>, bool)>, indices: Seq<usize>)
    requires
        forall|k: int| 0 <= k < indices.len() ==> #[trigger] indices[k] < records.len(),
    ensures
        team_records(records, indices, false).len() == indices.len(),
        forall|k: int| 0 <= k < indices.len() ==> #[trigger] team_records(records, indices, false)[k]
            == records[indices[k] as int].0,
    decreases indices.len(),
{
    if indices.len() > 0 {
        let front = indices.drop_last();
        assert forall|k: int| 0 <= k < front.len() implies #[trigger] front[k] < records.len() by {
            assert(front[k] == indices[k]);
        }
        lemma_schedule_lists_every_match(records, front);
        assert(indices.last() == indices[indices.len() - 1]);
        assert forall|k: int| 0 <= k < indices.len() implies #[trigger] team_records(records, indices, false)[k]
            == records[indices[k] as int].0 by {
            if k < front.len() {
                assert(front[k] == indices[k]);
            }
        }
    }
}

/// A team's history is its schedule when every indexed match has ended.
pub proof fn lemma_history_of_ended_matches(records: Seq<(Seq<char>, bool)>, indices: Seq<usize>)
    requires
        forall|k: int| 0 <= k < indices.len() && #[trigger] indices[k] < records.len() ==> records[indices[k] as int].1,
    ensures
        team_records(records, indices, true) == team_records(records, indices, false),
    decreases indices.len(),
{
    if indices.len() > 0 {
        let front = indices.drop_last();
        assert forall|k: int| 0 <= k < front.len() && #[trigger] front[k] < records.len() implies records[front[k] as int].1 by {
            assert(front[k] == indices[k]);
        }
        lemma_history_of_ended_matches(records, front);
        assert(indices.last() == indices[indices.len() - 1]);
    }
}

/// A team's history leaves out every match that has not ended.
pub proof fn lemma_history_without_unfinished(records: Seq<(Seq<char>, bool)>, indices: Seq<usize>)
    requires
        forall|k: int| 0 <= k < indices.len() && #[trigger] indices[k] < records.len() ==> !records[indices[k] as int].1,
    ensures
        team_records(records, indices, true).len() == 0,
    decreases indices.len(),
{
    if indices.len() > 0 {
        let front = indices.drop_last();
        assert forall|k: int| 0 <= k < front.len() && #[trigger] front[k] < records.len() implies !records[front[k] as int].1 by {
            assert(front[k] == indices[k]);
        }
        lemma_history_without_unfinished(records, front);
        assert(indices.last() == indices[indices.len() - 1]);
    }
}

/// A team's matches from a snapshot, only the ended ones when asked.
pub fn filter_global_team_records(snapshot: &GlobalHistorySnapshot, team_id: usize, completed_only: bool) -> (r: Vec<String>)
    ensures
        r@.map_values(|s: String| s@) == team_records(
            record_views(snapshot.match_records@),
            team_indices(snapshot.team_match_indices@, team_id),
            completed_only,
        ),
{
    let mut out: Vec<String> = Vec::new();
    let indices = match snapshot.team_match_indices.get(&team_id) {
        Some(v) => v,
        None => {
            assert(out@.map_values(|s: String| s@) =~= Seq::<Seq<char>>::empty());
            return out;
        },
    };
    let ghost idx = indices@;
    let ghost recs = record_views(snapshot.match_records@);
    assert(idx == team_indices(snapshot.team_match_indices@, team_id));
    let mut k: usize = 0;
    while k < indices.len()
        invariant
            k <= indices.len(),
            idx == indices@,
            recs == record_views(snapshot.match_records@),
            out@.map_values(|s: String| s@) == team_records(recs, idx.take(k as int), completed_only),
        decreases indices.len() - k,
    {
        let i = indices[k];
        proof {
            assert(idx.take(k + 1).drop_last() == idx.take(k as int));
            assert(idx.take(k + 1).last() == i);
        }
        if i < snapshot.match_records.len() {
            let record = &snapshot.match_records[i];
            if !completed_only || record.completed {
                let ghost before = out@;
                out.push(record.json.clone());
                assert(out@.map_values(|s: String| s@) =~= before.map_values(|s: String| s@).push(
                    recs[i as int].0,
                ));
            }
        }
        k += 1;
    }
    assert(idx.take(indices.len() as int) == idx);
    out
}

// ---------------------------------------------------------------------------
// Capturing
// ---------------------------------------------------------------------------
/// `a.saturating_add(b)`.
pub open spec fn sat_add(a: usize, b: nat) -> usize {
    if a + b > usize::MAX {
        usize::MAX
    } else {
        (a + b) as usize
    }
}

/// `a.max(b)`.
pub open spec fn max_len(a: usize, b: nat) -> usize {
    if b > a {
        b as usize
    } else {
        a
    }
}

/// The index-entry count after a match with teams `t1` and `t2`: one more
/// for each side that names a team, once when both name the same team.
pub open spec fn index_entries_after(n: usize, t1: Option<usize>, t2: Option<usize>) -> usize {
    let with_first = if t1 is Some {
        sat_add(n, 1)
    } else {
        n
    };
    if t2 is Some && t2 != t1 {
        sat_add(with_first, 1)
    } else {
        with_first
    }
}

/// The UTF-8 length of a text, as `str::len` gives it.
pub open spec fn byte_len(s: Seq<char>) -> nat {
    (vstd::utf8::encode_utf8(s).len() as usize) as nat
}

/// Adds a league to the snapshot: its compact record with its id, when the
/// record is an object, and the size it adds.
pub fn capture_league_record(snapshot: &mut GlobalHistorySnapshot, record_id: usize, value: &JsonValue)
    ensures
        match record_with_id(record_id, compact_league(value@)) {
            Ok(text) => {
                &&& final(snapshot).league_records@.map_values(|r: String| r@) == old(snapshot).league_records@.map_values(|r: String| r@).push(text)
                &&& final(snapshot).metrics == (GlobalHistoryCaptureMetrics {
                    league_bytes: sat_add(old(snapshot).metrics.league_bytes, byte_len(text)),
                    largest_record_bytes: max_len(old(snapshot).metrics.largest_record_bytes, byte_len(text)),
                    ..old(snapshot).metrics
                })
            },
            Err(_) => final(snapshot).league_records@ == old(snapshot).league_records@
                && final(snapshot).metrics == old(snapshot).metrics,
        },
        final(snapshot).match_records@ == old(snapshot).match_records@,
        final(snapshot).team_match_indices@ == old(snapshot).team_match_indices@,
        final(snapshot).league_competition_records@ == old(snapshot).league_competition_records@,
        final(snapshot).capture_index == old(snapshot).capture_index,
{
    let compact = global_compact_league_value(value);
    match global_json_with_id(record_id, compact) {
        Ok(json) => {
            let ghost text = json@;
            assert(record_with_id(record_id, compact_league(value@)) == Ok::<Seq<char>, BridgeError>(text));
            let n = json.as_str().len();
            assert(n == byte_len(text));
            snapshot.metrics.league_bytes = snapshot.metrics.league_bytes.saturating_add(n);
            assert(snapshot.metrics.league_bytes == sat_add(old(snapshot).metrics.league_bytes, byte_len(text)));
            if n > snapshot.metrics.largest_record_bytes {
                snapshot.metrics.largest_record_bytes = n;
            }
            let ghost before = snapshot.league_records@;
            snapshot.league_records.push(json);
            assert(snapshot.league_records@.map_values(|r: String| r@) =~= before.map_values(|r: String| r@).push(
                text,
            ));
        },
        Err(_) => {},
    }
}

/// Adds a league competition to the snapshot, keyed by its id.
pub fn capture_league_competition_record(snapshot: &mut GlobalHistorySnapshot, record_id: usize, value: &JsonValue)
    ensures
        match record_with_id(record_id, compact_league_competition(value@)) {
            Ok(text) => {
                &&& final(snapshot).league_competition_records@.dom() == old(snapshot).league_competition_records@.dom().insert(record_id)
                &&& final(snapshot).league_competition_records@[record_id]@ == text
                &&& forall|k: usize| k != record_id && #[trigger] old(snapshot).league_competition_records@.contains_key(k) ==> final(snapshot).league_competition_records@[k] == old(snapshot).league_competition_records@[k]
                &&& final(snapshot).metrics == (GlobalHistoryCaptureMetrics {
                    league_competition_bytes: sat_add(old(snapshot).metrics.league_competition_bytes, byte_len(text)),
                    largest_record_bytes: max_len(old(snapshot).metrics.largest_record_bytes, byte_len(text)),
                    ..old(snapshot).metrics
                })
            },
            Err(_) => final(snapshot).league_competition_records@ == old(snapshot).league_competition_records@
                && final(snapshot).metrics == old(snapshot).metrics,
        },
        final(snapshot).league_records@ == old(snapshot).league_records@,
        final(snapshot).match_records@ == old(snapshot).match_records@,
        final(snapshot).team_match_indices@ == old(snapshot).team_match_indices@,
        final(snapshot).capture_index == old(snapshot).capture_index,
{
    let compact = global_compact_league_competition_value(value);
    match global_json_with_id(record_id, compact) {
        Ok(json) => {
            let n = json.as_str().len();
            snapshot.metrics.league_competition_bytes = snapshot.metrics.league_competition_bytes.saturating_add(n);
            if n > snapshot.metrics.largest_record_bytes {
                snapshot.metrics.largest_record_bytes = n;
            }
            snapshot.league_competition_records.insert(record_id, json);
            proof {
                assert(final(snapshot).league_competition_records@.dom() =~= old(snapshot).league_competition_records@.dom().insert(record_id));
            }
        },
        Err(_) => {},
    }
}

/// Adds a match to the snapshot: its compact record with its id, whether it
/// has ended, and its position in the lists of the teams on its sides (once
/// when both sides name the same team). `None` stands for a match that
/// could not be read; it is counted as scanned all the same.
pub fn capture_match_record(snapshot: &mut GlobalHistorySnapshot, record_id: usize, value: Option<&JsonValue>)
    ensures
        final(snapshot).league_records@ == old(snapshot).league_records@,
        final(snapshot).league_competition_records@ == old(snapshot).league_competition_records@,
        final(snapshot).capture_index == old(snapshot).capture_index,
        match value {
            None => final(snapshot).match_records@ == old(snapshot).match_records@
                && final(snapshot).team_match_indices@ == old(snapshot).team_match_indices@
                && final(snapshot).metrics == (GlobalHistoryCaptureMetrics {
                    match_scanned_records: sat_add(old(snapshot).metrics.match_scanned_records, 1),
                    ..old(snapshot).metrics
                }),
            Some(v) => match record_with_id(record_id, compact_match(v@)) {
                Err(_) => final(snapshot).match_records@ == old(snapshot).match_records@
                    && final(snapshot).team_match_indices@ == old(snapshot).team_match_indices@
                    && final(snapshot).metrics == (GlobalHistoryCaptureMetrics {
                        match_scanned_records: sat_add(old(snapshot).metrics.match_scanned_records, 1),
                        ..old(snapshot).metrics
                    }),
                Ok(text) => {
                    let i = old(snapshot).match_records@.len() as usize;
                    let t1 = normal_team_id(v@, "team1"@);
                    let t2 = normal_team_id(v@, "team2"@);
                    &&& record_views(final(snapshot).match_records@) == record_views(old(snapshot).match_records@).push((text, match_completed(v@)))
                    &&& final(snapshot).metrics == (GlobalHistoryCaptureMetrics {
                        match_scanned_records: sat_add(old(snapshot).metrics.match_scanned_records, 1),
                        match_bytes: sat_add(old(snapshot).metrics.match_bytes, byte_len(text)),
                        match_index_entries: index_entries_after(old(snapshot).metrics.match_index_entries, t1, t2),
                        largest_record_bytes: max_len(old(snapshot).metrics.largest_record_bytes, byte_len(text)),
                        ..old(snapshot).metrics
                    })
                    &&& forall|t: usize| team_indices(final(snapshot).team_match_indices@, t) == if t1 == Some(t) || t2 == Some(t) {
                        team_indices(old(snapshot).team_match_indices@, t).push(i)
                    } else {
                        team_indices(old(snapshot).team_match_indices@, t)
                    }
                },
            },
        },
{
    snapshot.metrics.match_scanned_records = snapshot.metrics.match_scanned_records.saturating_add(1);
    let value = match value {
        Some(v) => v,
        None => return,
    };
    let team1 = global_json_normal_team_id(value, "team1");
    let team2 = global_json_normal_team_id(value, "team2");
    let completed = global_json_is_completed_match(value);
    let compact = global_compact_match_value(value);
    let json = match global_json_with_id(record_id, compact) {
        Ok(j) => j,
        Err(_) => return,
    };
    let n = json.as_str().len();
    snapshot.metrics.match_bytes = snapshot.metrics.match_bytes.saturating_add(n);
    if n > snapshot.metrics.largest_record_bytes {
        snapshot.metrics.largest_record_bytes = n;
    }
    let record_index = snapshot.match_records.len();
    let ghost before = snapshot.match_records@;
    let ghost text = json@;
    snapshot.match_records.push(GlobalMatchRecord { json, completed });
    assert(record_views(snapshot.match_records@) =~= record_views(before).push((text, completed)));
    if team1.is_some() {
        snapshot.metrics.match_index_entries = snapshot.metrics.match_index_entries.saturating_add(1);
    }
    if team2.is_some() && team2 != team1 {
        snapshot.metrics.match_index_entries = snapshot.metrics.match_index_entries.saturating_add(1);
    }
    let ghost m0 = snapshot.team_match_indices@;
    index_global_match_for_team(&mut snapshot.team_match_indices, team1, record_index);
    let ghost m1 = snapshot.team_match_indices@;
    proof {
        assert forall|t: usize| team_indices(m1, t) == if team1 == Some(t) {
            team_indices(m0, t).push(record_index)
        } else {
            team_indices(m0, t)
        } by {
            if team1 is Some && team1 != Some(t) {
                assert(m1.contains_key(t) == m0.contains_key(t));
            }
        }
    }
    if team2 != team1 {
        index_global_match_for_team(&mut snapshot.team_match_indices, team2, record_index);
        proof {
            let m2 = snapshot.team_match_indices@;
            assert forall|t: usize| team_indices(m2, t) == if team2 == Some(t) {
                team_indices(m1, t).push(record_index)
            } else {
                team_indices(m1, t)
            } by {
                if team2 is Some && team2 != Some(t) {
                    assert(m2.contains_key(t) == m1.contains_key(t));
                }
            }
        }
    }
}

/// Records which match ids a capture keeps: how many the game had, how many
/// were dropped, and the oldest and newest kept.
pub fn note_match_selection(metrics: &mut GlobalHistoryCaptureMetrics, source_records: usize, retained: &Vec<usize>)
    ensures
        final(metrics).match_source_records == source_records,
        final(metrics).match_dropped_records == if source_records >= retained@.len() {
            (source_records - retained@.len()) as usize
        } else {
            0
        },
        final(metrics).match_oldest_retained_id == if retained@.len() > 0 {
            Some(retained@[0])
        } else {
            None::<usize>
        },
        final(metrics).match_newest_retained_id == if retained@.len() > 0 {
            Some(retained@.last())
        } else {
            None::<usize>
        },
        *final(metrics) == (GlobalHistoryCaptureMetrics {
            match_source_records: final(metrics).match_source_records,
            match_dropped_records: final(metrics).match_dropped_records,
            match_oldest_retained_id: final(metrics).match_oldest_retained_id,
            match_newest_retained_id: final(metrics).match_newest_retained_id,
            ..*old(metrics)
        }),
{
    metrics.match_source_records = source_records;
    metrics.match_dropped_records = source_records.saturating_sub(retained.len());
    if retained.len() > 0 {
        metrics.match_oldest_retained_id = Some(retained[0]);
        metrics.match_newest_retained_id = Some(retained[retained.len() - 1]);
    } else {
        metrics.match_oldest_retained_id = None;
        metrics.match_newest_retained_id = None;
    }
}

/// Completes a capture's counts: the records kept of each kind, the teams
/// with an index list, and the total size of the records.
pub fn finish_global_history_capture(snapshot: &mut GlobalHistorySnapshot)
    ensures
        final(snapshot).metrics.league_retained_records == old(snapshot).league_records@.len(),
        final(snapshot).metrics.league_competition_retained_records == old(snapshot).league_competition_records@.len(),
        final(snapshot).metrics.match_retained_records == old(snapshot).match_records@.len(),
        final(snapshot).metrics.match_indexed_teams == old(snapshot).team_match_indices@.len(),
        final(snapshot).metrics.snapshot_bytes == sat_add(
            sat_add(old(snapshot).metrics.league_bytes, old(snapshot).metrics.league_competition_bytes as nat),
            old(snapshot).metrics.match_bytes as nat,
        ),
        final(snapshot).metrics == (GlobalHistoryCaptureMetrics {
            league_retained_records: final(snapshot).metrics.league_retained_records,
            league_competition_retained_records: final(snapshot).metrics.league_competition_retained_records,
            match_retained_records: final(snapshot).metrics.match_retained_records,
            match_indexed_teams: final(snapshot).metrics.match_indexed_teams,
            snapshot_bytes: final(snapshot).metrics.snapshot_bytes,
            ..old(snapshot).metrics
        }),
        final(snapshot).league_records@ == old(snapshot).league_records@,
        final(snapshot).league_competition_records@ == old(snapshot).league_competition_records@,
        final(snapshot).match_records@ == old(snapshot).match_records@,
        final(snapshot).team_match_indices@ == old(snapshot).team_match_indices@,
        final(snapshot).capture_index == old(snapshot).capture_index,
{
    snapshot.metrics.league_retained_records = snapshot.league_records.len();
    snapshot.metrics.league_competition_retained_records = snapshot.league_competition_records.len();
    snapshot.metrics.match_retained_records = snapshot.match_records.len();
    snapshot.metrics.match_indexed_teams = snapshot.team_match_indices.len();
    snapshot.metrics.snapshot_bytes = snapshot.metrics.league_bytes.saturating_add(
        snapshot.metrics.league_competition_bytes,
    ).saturating_add(snapshot.metrics.match_bytes);
}

} // verus!
