//! Edits whose numbers travel as text: staff and player ratings, salaries,
//! conditions and contracts. The numbers themselves are checked where they
//! are read as floating point; what is read as text or as an integer is
//! checked here.

use vstd::prelude::*;
use vstd::utf8::encode_utf8;
use vstd::utf8::{decode_utf8, valid_utf8};
use crate::error::BridgeError;
use crate::currency::char_width;
use crate::digits::pow10;
use crate::text::{
    all_digits, digits_value, is_digit, lex_lt, parse_i32_spec, unsigned_body,
    extend_chars, chars_of, decimal_text, join_chars, join_pieces, push_decimal, views, split_chars,
    split_pieces, parse_usize_spec, parse_usize_chars, lemma_split_join, lemma_decimal_text_no,
    string_of,
};
use crate::wire::{
    chars_bytes, payload_chars, usize_field, text_field, usize_at, text_at, contract_dates_check,
    validate_contract_dates, lemma_id_text, lemma_payload_text,
};
use crate::responses::{flag_text, flag_chars};
use crate::commands::{contract_bool_of, parse_contract_bool, squad_status_of, parse_squad_status};

verus! {

/// The ten staff ratings, as text, in the order the editor sends them.
pub struct StaffStatValues {
    pub banpick: String,
    pub strategy: String,
    pub negotiation: String,
    pub judge_ability: String,
    pub judge_potential: String,
    pub feedback: String,
    pub power_analysis: String,
    pub control_coaching: String,
    pub judgment_coaching: String,
    pub mental_coaching: String,
}

/// The staff ratings in field order.
pub open spec fn staff_stat_texts(v: StaffStatValues) -> Seq<Seq<char>> {
    seq![
        v.banpick@,
        v.strategy@,
        v.negotiation@,
        v.judge_ability@,
        v.judge_potential@,
        v.feedback@,
        v.power_analysis@,
        v.control_coaching@,
        v.judgment_coaching@,
        v.mental_coaching@,
    ]
}

/// The twelve player ratings, as text, in the order the editor sends them.
pub struct PlayerStatValues {
    pub last_hit: String,
    pub skill_avoid: String,
    pub skill_hit: String,
    pub control_speed: String,
    pub positioning: String,
    pub judgement: String,
    pub mental: String,
    pub concentration: String,
    pub order: String,
    pub roaming: String,
    pub aggressive: String,
    pub ego: String,
}

/// The player ratings in field order.
pub open spec fn player_stat_texts(v: PlayerStatValues) -> Seq<Seq<char>> {
    seq![
        v.last_hit@,
        v.skill_avoid@,
        v.skill_hit@,
        v.control_speed@,
        v.positioning@,
        v.judgement@,
        v.mental@,
        v.concentration@,
        v.order@,
        v.roaming@,
        v.aggressive@,
        v.ego@,
    ]
}

/// A new annual salary for a staff member.
pub struct StaffSalaryValue {
    pub annual_salary: String,
}

/// A new annual salary for a player.
pub struct PlayerSalaryValue {
    pub annual_salary: String,
}

/// New stamina and condition for a player.
pub struct PlayerConditionValue {
    pub stamina: String,
    pub condition: String,
}

/// A new contract for a staff member.
pub struct StaffContractValue {
    pub team_id: usize,
    pub start_date: String,
    pub end_date: String,
    pub annual_salary: String,
}

/// A staff contract as values: team, start, end, salary.
pub open spec fn staff_contract_view(v: StaffContractValue) -> (usize, Seq<char>, Seq<char>, Seq<char>) {
    (v.team_id, v.start_date@, v.end_date@, v.annual_salary@)
}

/// A new contract for a player, with its four optional bonuses.
pub struct PlayerContractValue {
    pub team_id: usize,
    pub start_date: String,
    pub end_date: String,
    pub annual_salary: String,
    pub transfer_fee: String,
    pub squad_status: String,
    pub pog_enabled: bool,
    pub pog_bonus: String,
    pub league_enabled: bool,
    pub league_bonus: String,
    pub league_rank: String,
    pub match_enabled: bool,
    pub match_bonus: String,
    pub win_enabled: bool,
    pub win_bonus: String,
}

/// A player contract with its texts as characters.
pub struct PlayerContractTerms {
    pub team_id: usize,
    pub start_date: Seq<char>,
    pub end_date: Seq<char>,
    pub annual_salary: Seq<char>,
    pub transfer_fee: Seq<char>,
    pub squad_status: Seq<char>,
    pub pog_enabled: bool,
    pub pog_bonus: Seq<char>,
    pub league_enabled: bool,
    pub league_bonus: Seq<char>,
    pub league_rank: Seq<char>,
    pub match_enabled: bool,
    pub match_bonus: Seq<char>,
    pub win_enabled: bool,
    pub win_bonus: Seq<char>,
}

pub open spec fn player_contract_terms(v: PlayerContractValue) -> PlayerContractTerms {
    PlayerContractTerms {
        team_id: v.team_id,
        start_date: v.start_date@,
        end_date: v.end_date@,
        annual_salary: v.annual_salary@,
        transfer_fee: v.transfer_fee@,
        squad_status: v.squad_status@,
        pog_enabled: v.pog_enabled,
        pog_bonus: v.pog_bonus@,
        league_enabled: v.league_enabled,
        league_bonus: v.league_bonus@,
        league_rank: v.league_rank@,
        match_enabled: v.match_enabled,
        match_bonus: v.match_bonus@,
        win_enabled: v.win_enabled,
        win_bonus: v.win_bonus@,
    }
}

/// Whose contract defaults are asked for.
#[derive(Clone, Copy, Debug, PartialEq, Eq, Structural)]
pub enum ContractDefaultsEntity {
    Player,
    Staff,
}

// ---------------------------------------------------------------------------
// Payloads
// ---------------------------------------------------------------------------
/// `"{id}|{field}|{field}|..."`: an id followed by its fields.
pub open spec fn record_text(id: usize, fields: Seq<Seq<char>>) -> Seq<char> {
    join_pieces(seq![decimal_text(id as nat)] + fields, '|')
}

pub(crate) fn decimal_chars(n: usize) -> (r: Vec<char>)
    ensures
        r@ == decimal_text(n as nat),
{
    let mut out: Vec<char> = Vec::new();
    push_decimal(&mut out, n as u128);
    out
}

/// The text of a staff ratings change splits on `|` into the staff id, then each
/// rating in its fixed place: banpick, strategy, negotiation, judge_ability, judge_potential, feedback, power_analysis, control_coaching, judgment_coaching, mental_coaching.
pub proof fn lemma_staff_stats_fields(id: usize, v: StaffStatValues)
    requires
        !v.banpick@.contains('|'),
        !v.strategy@.contains('|'),
        !v.negotiation@.contains('|'),
        !v.judge_ability@.contains('|'),
        !v.judge_potential@.contains('|'),
        !v.feedback@.contains('|'),
        !v.power_analysis@.contains('|'),
        !v.control_coaching@.contains('|'),
        !v.judgment_coaching@.contains('|'),
        !v.mental_coaching@.contains('|'),
    ensures
        ({
        let f = split_pieces(record_text(id, staff_stat_texts(v)), '|');
        &&& f.len() == 11
        &&& f[0] == decimal_text(id as nat)
        &&& f[1] == v.banpick@
        &&& f[2] == v.strategy@
        &&& f[3] == v.negotiation@
        &&& f[4] == v.judge_ability@
        &&& f[5] == v.judge_potential@
        &&& f[6] == v.feedback@
        &&& f[7] == v.power_analysis@
        &&& f[8] == v.control_coaching@
        &&& f[9] == v.judgment_coaching@
        &&& f[10] == v.mental_coaching@
        }),
{
    let ps = seq![decimal_text(id as nat)] + staff_stat_texts(v);
    lemma_id_text(id);
    assert forall|i: int| 0 <= i < ps.len() implies !(#[trigger] ps[i]).contains('|') by {
        if i > 0 {
            assert(ps[i] == staff_stat_texts(v)[i - 1]);
        }
    }
    lemma_split_join(ps, '|');
}

/// The text of a player ratings change splits on `|` into the player id, then each
/// rating in its fixed place: last_hit, skill_avoid, skill_hit, control_speed, positioning, judgement, mental, concentration, order, roaming, aggressive, ego.
pub proof fn lemma_player_stats_fields(id: usize, v: PlayerStatValues)
    requires
        !v.last_hit@.contains('|'),
        !v.skill_avoid@.contains('|'),
        !v.skill_hit@.contains('|'),
        !v.control_speed@.contains('|'),
        !v.positioning@.contains('|'),
        !v.judgement@.contains('|'),
        !v.mental@.contains('|'),
        !v.concentration@.contains('|'),
        !v.order@.contains('|'),
        !v.roaming@.contains('|'),
        !v.aggressive@.contains('|'),
        !v.ego@.contains('|'),
    ensures
        ({
        let f = split_pieces(record_text(id, player_stat_texts(v)), '|');
        &&& f.len() == 13
        &&& f[0] == decimal_text(id as nat)
        &&& f[1] == v.last_hit@
        &&& f[2] == v.skill_avoid@
        &&& f[3] == v.skill_hit@
        &&& f[4] == v.control_speed@
        &&& f[5] == v.positioning@
        &&& f[6] == v.judgement@
        &&& f[7] == v.mental@
        &&& f[8] == v.concentration@
        &&& f[9] == v.order@
        &&& f[10] == v.roaming@
        &&& f[11] == v.aggressive@
        &&& f[12] == v.ego@
        }),
{
    let ps = seq![decimal_text(id as nat)] + player_stat_texts(v);
    lemma_id_text(id);
    assert forall|i: int| 0 <= i < ps.len() implies !(#[trigger] ps[i]).contains('|') by {
        if i > 0 {
            assert(ps[i] == player_stat_texts(v)[i - 1]);
        }
    }
    lemma_split_join(ps, '|');
}

/// The payload of a record: the id, then each field, joined with `|`.
pub(crate) fn record_payload(id: usize, fields: &Vec<Vec<char>>) -> (r: Vec<u8>)
    ensures
        r@ == encode_utf8(record_text(id, views(fields@))),
{
    let mut pieces: Vec<Vec<char>> = Vec::new();
    pieces.push(decimal_chars(id));
    let mut i: usize = 0;
    while i < fields.len()
        invariant
            i <= fields.len(),
            views(pieces@) == seq![decimal_text(id as nat)] + views(fields@).take(i as int),
        decreases fields.len() - i,
    {
        let mut piece: Vec<char> = Vec::new();
        extend_chars(&mut piece, &fields[i]);
        let ghost before = pieces@;
        pieces.push(piece);
        assert(views(pieces@) =~= views(before).push(fields@[i as int]@));
        i += 1;
        assert(views(fields@).take(i as int) =~= views(fields@).take(i - 1).push(fields@[i - 1]@));
    }
    assert(views(fields@).take(fields.len() as int) == views(fields@));
    chars_bytes(&join_chars(&pieces, '|'))
}

/// The payload of a staff ratings change: the id and the ten ratings.
pub fn staff_stats_payload(staff_id: usize, values: &StaffStatValues) -> (r: Vec<u8>)
    ensures
        r@ == encode_utf8(record_text(staff_id, staff_stat_texts(*values))),
{
    let mut fields: Vec<Vec<char>> = Vec::new();
    fields.push(chars_of(values.banpick.as_str()));
    fields.push(chars_of(values.strategy.as_str()));
    fields.push(chars_of(values.negotiation.as_str()));
    fields.push(chars_of(values.judge_ability.as_str()));
    fields.push(chars_of(values.judge_potential.as_str()));
    fields.push(chars_of(values.feedback.as_str()));
    fields.push(chars_of(values.power_analysis.as_str()));
    fields.push(chars_of(values.control_coaching.as_str()));
    fields.push(chars_of(values.judgment_coaching.as_str()));
    fields.push(chars_of(values.mental_coaching.as_str()));
    assert(views(fields@) =~= staff_stat_texts(*values));
    record_payload(staff_id, &fields)
}

/// The payload of a player ratings change: the id and the twelve ratings.
pub fn player_stats_payload(athlete_id: usize, values: &PlayerStatValues) -> (r: Vec<u8>)
    ensures
        r@ == encode_utf8(record_text(athlete_id, player_stat_texts(*values))),
{
    let mut fields: Vec<Vec<char>> = Vec::new();
    fields.push(chars_of(values.last_hit.as_str()));
    fields.push(chars_of(values.skill_avoid.as_str()));
    fields.push(chars_of(values.skill_hit.as_str()));
    fields.push(chars_of(values.control_speed.as_str()));
    fields.push(chars_of(values.positioning.as_str()));
    fields.push(chars_of(values.judgement.as_str()));
    fields.push(chars_of(values.mental.as_str()));
    fields.push(chars_of(values.concentration.as_str()));
    fields.push(chars_of(values.order.as_str()));
    fields.push(chars_of(values.roaming.as_str()));
    fields.push(chars_of(values.aggressive.as_str()));
    fields.push(chars_of(values.ego.as_str()));
    assert(views(fields@) =~= player_stat_texts(*values));
    record_payload(athlete_id, &fields)
}

/// The payload of a staff salary change.
pub fn staff_salary_payload(staff_id: usize, values: &StaffSalaryValue) -> (r: Vec<u8>)
    ensures
        r@ == encode_utf8(record_text(staff_id, seq![values.annual_salary@])),
{
    let mut fields: Vec<Vec<char>> = Vec::new();
    fields.push(chars_of(values.annual_salary.as_str()));
    assert(views(fields@) =~= seq![values.annual_salary@]);
    record_payload(staff_id, &fields)
}

/// The payload of a player salary change.
pub fn player_salary_payload(athlete_id: usize, values: &PlayerSalaryValue) -> (r: Vec<u8>)
    ensures
        r@ == encode_utf8(record_text(athlete_id, seq![values.annual_salary@])),
{
    let mut fields: Vec<Vec<char>> = Vec::new();
    fields.push(chars_of(values.annual_salary.as_str()));
    assert(views(fields@) =~= seq![values.annual_salary@]);
    record_payload(athlete_id, &fields)
}

/// The payload of a condition change: the id, the stamina, the condition.
pub fn player_condition_payload(athlete_id: usize, values: &PlayerConditionValue) -> (r: Vec<u8>)
    ensures
        r@ == encode_utf8(record_text(athlete_id, seq![values.stamina@, values.condition@])),
{
    let mut fields: Vec<Vec<char>> = Vec::new();
    fields.push(chars_of(values.stamina.as_str()));
    fields.push(chars_of(values.condition.as_str()));
    assert(views(fields@) =~= seq![values.stamina@, values.condition@]);
    record_payload(athlete_id, &fields)
}

/// The fields of a staff contract payload after the staff id.
pub open spec fn staff_contract_fields(v: (usize, Seq<char>, Seq<char>, Seq<char>)) -> Seq<Seq<char>> {
    seq![decimal_text(v.0 as nat), v.1, v.2, v.3]
}

/// The payload of a staff contract: the id, the team, the dates, the salary.
pub fn staff_contract_payload(staff_id: usize, values: &StaffContractValue) -> (r: Vec<u8>)
    ensures
        r@ == encode_utf8(record_text(staff_id, staff_contract_fields(staff_contract_view(*values)))),
{
    let mut fields: Vec<Vec<char>> = Vec::new();
    fields.push(decimal_chars(values.team_id));
    fields.push(chars_of(values.start_date.as_str()));
    fields.push(chars_of(values.end_date.as_str()));
    fields.push(chars_of(values.annual_salary.as_str()));
    assert(views(fields@) =~= staff_contract_fields(staff_contract_view(*values)));
    record_payload(staff_id, &fields)
}

/// The fields of a player contract payload after the athlete id, flags as
/// `1` or `0`.
pub open spec fn player_contract_fields(t: PlayerContractTerms) -> Seq<Seq<char>> {
    seq![
        decimal_text(t.team_id as nat),
        t.start_date,
        t.end_date,
        t.annual_salary,
        t.transfer_fee,
        t.squad_status,
        flag_text(t.pog_enabled),
        t.pog_bonus,
        flag_text(t.league_enabled),
        t.league_bonus,
        t.league_rank,
        flag_text(t.match_enabled),
        t.match_bonus,
        flag_text(t.win_enabled),
        t.win_bonus,
    ]
}

/// The payload of a player contract.
pub fn player_contract_payload(athlete_id: usize, values: &PlayerContractValue) -> (r: Vec<u8>)
    ensures
        r@ == encode_utf8(record_text(athlete_id, player_contract_fields(player_contract_terms(*values)))),
{
    let mut fields: Vec<Vec<char>> = Vec::new();
    fields.push(decimal_chars(values.team_id));
    fields.push(chars_of(values.start_date.as_str()));
    fields.push(chars_of(values.end_date.as_str()));
    fields.push(chars_of(values.annual_salary.as_str()));
    fields.push(chars_of(values.transfer_fee.as_str()));
    fields.push(chars_of(values.squad_status.as_str()));
    fields.push(flag_chars(values.pog_enabled));
    fields.push(chars_of(values.pog_bonus.as_str()));
    fields.push(flag_chars(values.league_enabled));
    fields.push(chars_of(values.league_bonus.as_str()));
    fields.push(chars_of(values.league_rank.as_str()));
    fields.push(flag_chars(values.match_enabled));
    fields.push(chars_of(values.match_bonus.as_str()));
    fields.push(flag_chars(values.win_enabled));
    fields.push(chars_of(values.win_bonus.as_str()));
    assert(views(fields@) =~= player_contract_fields(player_contract_terms(*values)));
    record_payload(athlete_id, &fields)
}

// ---------------------------------------------------------------------------
// Reading records
// ---------------------------------------------------------------------------
/// What the server reads from a record payload with `count` fields after
/// the id: the id, then each field, which must be there; later fields are
/// ignored.
pub open spec fn record_fields(payload: Seq<u8>, count: nat) -> Result<(usize, Seq<Seq<char>>), BridgeError> {
    if !valid_utf8(payload) {
        Err(BridgeError::InvalidPayload)
    } else {
        let ps = split_pieces(decode_utf8(payload), '|');
        match usize_field(ps, 0) {
            Err(e) => Err(e),
            Ok(id) => if ps.len() < count + 1 {
                Err(BridgeError::MissingValue)
            } else {
                Ok((id, ps.subrange(1, count + 1 as int)))
            },
        }
    }
}

fn read_record(payload: &[u8], count: usize) -> (r: Result<(usize, Vec<String>), BridgeError>)
    ensures
        match r {
            Ok((id, fs)) => fs@.len() == count && record_fields(payload@, count as nat) == Ok::<
                (usize, Seq<Seq<char>>),
                BridgeError,
            >((id, fs@.map_values(|f: String| f@))),
            Err(e) => record_fields(payload@, count as nat) == Err::<(usize, Seq<Seq<char>>), BridgeError>(e),
        },
{
    let text = payload_chars(payload)?;
    let ps = split_chars(&text, '|');
    let id = usize_at(&ps, 0)?;
    if ps.len() - 1 < count {
        return Err(BridgeError::MissingValue);
    }
    let mut fields: Vec<String> = Vec::new();
    let mut i: usize = 0;
    while i < count
        invariant
            i <= count,
            count + 1 <= ps.len(),
            fields@.map_values(|f: String| f@) == views(ps@).subrange(1, i + 1),
        decreases count - i,
    {
        let ghost before = fields@;
        fields.push(string_of(&ps[i + 1]));
        assert(fields@.map_values(|f: String| f@) =~= before.map_values(|f: String| f@).push(ps@[i + 1]@));
        i += 1;
        assert(views(ps@).subrange(1, i + 1) =~= views(ps@).subrange(1, i as int).push(ps@[i as int]@));
    }
    Ok((id, fields))
}

/// Reads a staff ratings payload; the ratings themselves are checked as
/// numbers by the caller.
pub fn read_server_staff_stats(payload: &[u8]) -> (r: Result<(usize, StaffStatValues), BridgeError>)
    ensures
        match r {
            Ok((id, v)) => record_fields(payload@, 10) == Ok::<(usize, Seq<Seq<char>>), BridgeError>(
                (id, staff_stat_texts(v)),
            ),
            Err(e) => record_fields(payload@, 10) == Err::<(usize, Seq<Seq<char>>), BridgeError>(e),
        },
{
    let (id, f) = read_record(payload, 10)?;
    let v = StaffStatValues {
        banpick: f[0].clone(),
        strategy: f[1].clone(),
        negotiation: f[2].clone(),
        judge_ability: f[3].clone(),
        judge_potential: f[4].clone(),
        feedback: f[5].clone(),
        power_analysis: f[6].clone(),
        control_coaching: f[7].clone(),
        judgment_coaching: f[8].clone(),
        mental_coaching: f[9].clone(),
    };
    assert(staff_stat_texts(v) =~= f@.map_values(|s: String| s@));
    Ok((id, v))
}

/// Reads a player ratings payload; the ratings themselves are checked as
/// numbers by the caller.
pub fn read_server_player_stats(payload: &[u8]) -> (r: Result<(usize, PlayerStatValues), BridgeError>)
    ensures
        match r {
            Ok((id, v)) => record_fields(payload@, 12) == Ok::<(usize, Seq<Seq<char>>), BridgeError>(
                (id, player_stat_texts(v)),
            ),
            Err(e) => record_fields(payload@, 12) == Err::<(usize, Seq<Seq<char>>), BridgeError>(e),
        },
{
    let (id, f) = read_record(payload, 12)?;
    let v = PlayerStatValues {
        last_hit: f[0].clone(),
        skill_avoid: f[1].clone(),
        skill_hit: f[2].clone(),
        control_speed: f[3].clone(),
        positioning: f[4].clone(),
        judgement: f[5].clone(),
        mental: f[6].clone(),
        concentration: f[7].clone(),
        order: f[8].clone(),
        roaming: f[9].clone(),
        aggressive: f[10].clone(),
        ego: f[11].clone(),
    };
    assert(player_stat_texts(v) =~= f@.map_values(|s: String| s@));
    Ok((id, v))
}

/// Reads a condition payload; the numbers are checked by the caller.
pub fn read_server_player_condition(payload: &[u8]) -> (r: Result<(usize, PlayerConditionValue), BridgeError>)
    ensures
        match r {
            Ok((id, v)) => record_fields(payload@, 2) == Ok::<(usize, Seq<Seq<char>>), BridgeError>(
                (id, seq![v.stamina@, v.condition@]),
            ),
            Err(e) => record_fields(payload@, 2) == Err::<(usize, Seq<Seq<char>>), BridgeError>(e),
        },
{
    let (id, f) = read_record(payload, 2)?;
    let v = PlayerConditionValue { stamina: f[0].clone(), condition: f[1].clone() };
    assert(seq![v.stamina@, v.condition@] =~= f@.map_values(|s: String| s@));
    Ok((id, v))
}

/// Reads a player salary payload; the amount is checked by the caller.
pub fn read_server_player_salary(payload: &[u8]) -> (r: Result<(usize, PlayerSalaryValue), BridgeError>)
    ensures
        match r {
            Ok((id, v)) => record_fields(payload@, 1) == Ok::<(usize, Seq<Seq<char>>), BridgeError>(
                (id, seq![v.annual_salary@]),
            ),
            Err(e) => record_fields(payload@, 1) == Err::<(usize, Seq<Seq<char>>), BridgeError>(e),
        },
{
    let (id, f) = read_record(payload, 1)?;
    let v = PlayerSalaryValue { annual_salary: f[0].clone() };
    assert(seq![v.annual_salary@] =~= f@.map_values(|s: String| s@));
    Ok((id, v))
}

/// A record's payload reads back as its id and fields, when no field holds
/// a `|`.
pub proof fn lemma_record_round_trip(id: usize, fields: Seq<Seq<char>>)
    requires
        forall|i: int| 0 <= i < fields.len() ==> !(#[trigger] fields[i]).contains('|'),
    ensures
        record_fields(encode_utf8(record_text(id, fields)), fields.len()) == Ok::<
            (usize, Seq<Seq<char>>),
            BridgeError,
        >((id, fields)),
{
    let ps = seq![decimal_text(id as nat)] + fields;
    lemma_id_text(id);
    assert forall|i: int| 0 <= i < ps.len() implies !(#[trigger] ps[i]).contains('|') by {
        if i > 0 {
            assert(ps[i] == fields[i - 1]);
        }
    }
    lemma_split_join(ps, '|');
    lemma_payload_text(record_text(id, fields));
    assert(ps.subrange(1, fields.len() + 1 as int) =~= fields);
}

// ---------------------------------------------------------------------------
// Contracts
// ---------------------------------------------------------------------------
/// A contract flag that must be present.
pub open spec fn flag_field(ps: Seq<Seq<char>>, i: int) -> Result<bool, BridgeError> {
    match text_field(ps, i) {
        Err(e) => Err(e),
        Ok(t) => contract_bool_of(t),
    }
}

fn flag_at(ps: &Vec<Vec<char>>, i: usize) -> (r: Result<bool, BridgeError>)
    ensures
        r == flag_field(views(ps@), i as int),
{
    let t = text_at(ps, i)?;
    parse_contract_bool(t.as_str())
}

/// The terms of a player contract read from the fields starting at `k`:
/// team, start, end, salary, transfer fee, squad status, then each bonus
/// flag before its bonus (the league bonus before its rank). A text field
/// can only be missing, and then every later field is missing too, so the
/// first failure is the first among the team, the flags and the last field.
pub open spec fn contract_terms_at(ps: Seq<Seq<char>>, k: int) -> Result<PlayerContractTerms, BridgeError> {
    match (
        usize_field(ps, k),
        flag_field(ps, k + 6),
        flag_field(ps, k + 8),
        flag_field(ps, k + 11),
        flag_field(ps, k + 13),
        text_field(ps, k + 14),
    ) {
        (Err(e), _, _, _, _, _) => Err(e),
        (_, Err(e), _, _, _, _) => Err(e),
        (_, _, Err(e), _, _, _) => Err(e),
        (_, _, _, Err(e), _, _) => Err(e),
        (_, _, _, _, Err(e), _) => Err(e),
        (_, _, _, _, _, Err(e)) => Err(e),
        (Ok(team_id), Ok(pog_enabled), Ok(league_enabled), Ok(match_enabled), Ok(win_enabled), Ok(win_bonus)) => Ok(
            PlayerContractTerms {
                team_id,
                start_date: ps[k + 1],
                end_date: ps[k + 2],
                annual_salary: ps[k + 3],
                transfer_fee: ps[k + 4],
                squad_status: ps[k + 5],
                pog_enabled,
                pog_bonus: ps[k + 7],
                league_enabled,
                league_bonus: ps[k + 9],
                league_rank: ps[k + 10],
                match_enabled,
                match_bonus: ps[k + 12],
                win_enabled,
                win_bonus,
            },
        ),
    }
}

pub(crate) fn read_contract_terms(ps: &Vec<Vec<char>>, k: usize) -> (r: Result<PlayerContractValue, BridgeError>)
    requires
        k <= 2,
    ensures
        match r {
            Ok(v) => contract_terms_at(views(ps@), k as int) == Ok::<PlayerContractTerms, BridgeError>(
                player_contract_terms(v),
            ),
            Err(e) => contract_terms_at(views(ps@), k as int) == Err::<PlayerContractTerms, BridgeError>(e),
        },
{
    let team_id = usize_at(ps, k)?;
    let start_date = text_at(ps, k + 1)?;
    let end_date = text_at(ps, k + 2)?;
    let annual_salary = text_at(ps, k + 3)?;
    let transfer_fee = text_at(ps, k + 4)?;
    let squad_status = text_at(ps, k + 5)?;
    let pog_enabled = flag_at(ps, k + 6)?;
    let pog_bonus = text_at(ps, k + 7)?;
    let league_enabled = flag_at(ps, k + 8)?;
    let league_bonus = text_at(ps, k + 9)?;
    let league_rank = text_at(ps, k + 10)?;
    let match_enabled = flag_at(ps, k + 11)?;
    let match_bonus = text_at(ps, k + 12)?;
    let win_enabled = flag_at(ps, k + 13)?;
    let win_bonus = text_at(ps, k + 14)?;
    let values = PlayerContractValue {
        team_id,
        start_date,
        end_date,
        annual_salary,
        transfer_fee,
        squad_status,
        pog_enabled,
        pog_bonus,
        league_enabled,
        league_bonus,
        league_rank,
        match_enabled,
        match_bonus,
        win_enabled,
        win_bonus,
    };
    assert(contract_terms_at(views(ps@), k as int) == Ok::<PlayerContractTerms, BridgeError>(
        player_contract_terms(values),
    ));
    Ok(values)
}

/// What the floating-point checks of a player contract's amounts found:
/// the salary, the transfer fee and each bonus, whether enabled or not.
#[derive(Clone, Copy, Debug)]
pub struct ContractAmountChecks {
    pub annual_salary: Result<(), BridgeError>,
    pub transfer_fee: Result<(), BridgeError>,
    pub pog_bonus: Result<(), BridgeError>,
    pub league_bonus: Result<(), BridgeError>,
    pub match_bonus: Result<(), BridgeError>,
    pub win_bonus: Result<(), BridgeError>,
}

/// A league rank from 1 to 10.
pub open spec fn league_rank_ok(rank: Seq<char>) -> bool {
    match parse_usize_spec(rank) {
        Some(n) => 1 <= n <= 10,
        None => false,
    }
}

/// `validate_player_contract_extras`: a known squad status, then each
/// enabled bonus in turn, the league bonus followed by its rank.
pub open spec fn contract_extras_check(t: PlayerContractTerms, a: ContractAmountChecks) -> Result<(), BridgeError> {
    if squad_status_of(t.squad_status) is Err {
        Err(BridgeError::InvalidSquadStatus)
    } else if t.pog_enabled && a.pog_bonus is Err {
        a.pog_bonus
    } else if t.league_enabled && a.league_bonus is Err {
        a.league_bonus
    } else if t.league_enabled && !league_rank_ok(t.league_rank) {
        Err(BridgeError::InvalidLeagueRank)
    } else if t.match_enabled && a.match_bonus is Err {
        a.match_bonus
    } else if t.win_enabled && a.win_bonus is Err {
        a.win_bonus
    } else {
        Ok(())
    }
}

/// Checks the squad status, the enabled bonuses and the league rank of a
/// contract, given what the amount checks found.
pub fn validate_player_contract_extras(values: &PlayerContractValue, amounts: &ContractAmountChecks) -> (r: Result<(), BridgeError>)
    ensures
        r == contract_extras_check(player_contract_terms(*values), *amounts),
{
    parse_squad_status(values.squad_status.as_str())?;
    if values.pog_enabled {
        amounts.pog_bonus?;
    }
    if values.league_enabled {
        amounts.league_bonus?;
        let rank = match parse_usize_chars(&chars_of(values.league_rank.as_str())) {
            Some(n) => n,
            None => return Err(BridgeError::InvalidLeagueRank),
        };
        if !(1 <= rank && rank <= 10) {
            return Err(BridgeError::InvalidLeagueRank);
        }
    }
    if values.match_enabled {
        amounts.match_bonus?;
    }
    if values.win_enabled {
        amounts.win_bonus?;
    }
    Ok(())
}

/// The checks of a player contract after its dates: the salary, the
/// transfer fee, then the extras.
pub open spec fn contract_amounts_check(t: PlayerContractTerms, a: ContractAmountChecks) -> Result<(), BridgeError> {
    if a.annual_salary is Err {
        a.annual_salary
    } else if a.transfer_fee is Err {
        a.transfer_fee
    } else {
        contract_extras_check(t, a)
    }
}

/// Checks what follows the dates of a player contract.
pub fn validate_player_contract_amounts(values: &PlayerContractValue, amounts: &ContractAmountChecks) -> (r: Result<(), BridgeError>)
    ensures
        r == contract_amounts_check(player_contract_terms(*values), *amounts),
{
    amounts.annual_salary?;
    amounts.transfer_fee?;
    validate_player_contract_extras(values, amounts)
}

/// What the server reads from a player contract payload, up to the amount
/// checks: the athlete, the terms, and dates that are in order.
pub open spec fn player_contract_read(payload: Seq<u8>) -> Result<(usize, PlayerContractTerms), BridgeError> {
    if !valid_utf8(payload) {
        Err(BridgeError::InvalidPayload)
    } else {
        let ps = split_pieces(decode_utf8(payload), '|');
        match usize_field(ps, 0) {
            Err(e) => Err(e),
            Ok(id) => match contract_terms_at(ps, 1) {
                Err(e) => Err(e),
                Ok(t) => match contract_dates_check(t.start_date, t.end_date) {
                    Err(e) => Err(e),
                    Ok(_) => Ok((id, t)),
                },
            },
        }
    }
}

/// Reads a player contract payload; its amounts are then checked with
/// `validate_player_contract_amounts`.
pub fn read_server_player_contract(payload: &[u8]) -> (r: Result<(usize, PlayerContractValue), BridgeError>)
    ensures
        match r {
            Ok((id, v)) => player_contract_read(payload@) == Ok::<(usize, PlayerContractTerms), BridgeError>(
                (id, player_contract_terms(v)),
            ),
            Err(e) => player_contract_read(payload@) == Err::<(usize, PlayerContractTerms), BridgeError>(e),
        },
{
    let text = payload_chars(payload)?;
    let ps = split_chars(&text, '|');
    let id = usize_at(&ps, 0)?;
    let values = read_contract_terms(&ps, 1)?;
    validate_contract_dates(values.start_date.as_str(), values.end_date.as_str())?;
    Ok((id, values))
}

/// What the server reads from a staff contract payload, up to the salary
/// check: the staff member, the team, dates that are in order, the salary.
pub open spec fn staff_contract_read(payload: Seq<u8>) -> Result<(usize, (usize, Seq<char>, Seq<char>, Seq<char>)), BridgeError> {
    if !valid_utf8(payload) {
        Err(BridgeError::InvalidPayload)
    } else {
        let ps = split_pieces(decode_utf8(payload), '|');
        match (usize_field(ps, 0), usize_field(ps, 1), text_field(ps, 2), text_field(ps, 3), text_field(ps, 4)) {
            (Err(e), _, _, _, _) => Err(e),
            (_, Err(e), _, _, _) => Err(e),
            (_, _, Err(e), _, _) => Err(e),
            (_, _, _, Err(e), _) => Err(e),
            (_, _, _, _, Err(e)) => Err(e),
            (Ok(id), Ok(team), Ok(start), Ok(end), Ok(salary)) => match contract_dates_check(start, end) {
                Err(e) => Err(e),
                Ok(_) => Ok((id, (team, start, end, salary))),
            },
        }
    }
}

/// Reads a staff contract payload; its salary is then checked as a number.
pub fn read_server_staff_contract(payload: &[u8]) -> (r: Result<(usize, StaffContractValue), BridgeError>)
    ensures
        match r {
            Ok((id, v)) => staff_contract_read(payload@) == Ok::<
                (usize, (usize, Seq<char>, Seq<char>, Seq<char>)),
                BridgeError,
            >((id, staff_contract_view(v))),
            Err(e) => staff_contract_read(payload@) == Err::<
                (usize, (usize, Seq<char>, Seq<char>, Seq<char>)),
                BridgeError,
            >(e),
        },
{
    let text = payload_chars(payload)?;
    let ps = split_chars(&text, '|');
    let id = usize_at(&ps, 0)?;
    let team_id = usize_at(&ps, 1)?;
    let start_date = text_at(&ps, 2)?;
    let end_date = text_at(&ps, 3)?;
    let annual_salary = text_at(&ps, 4)?;
    validate_contract_dates(start_date.as_str(), end_date.as_str())?;
    Ok((id, StaffContractValue { team_id, start_date, end_date, annual_salary }))
}

/// A flag's text reads back as the flag, and holds no `|`.
pub proof fn lemma_flag_text(b: bool)
    ensures
        contract_bool_of(flag_text(b)) == Ok::<bool, BridgeError>(b),
        !flag_text(b).contains('|'),
{
    reveal_strlit("1");
    reveal_strlit("0");
    assert("1"@ =~= seq!['1']);
    assert("0"@ =~= seq!['0']);
    assert("0"@ != "1"@) by {
        assert("0"@[0] != "1"@[0]);
    }
    assert(flag_text(b).len() == 1);
    if flag_text(b).contains('|') {
        assert(flag_text(b)[0] == '|');
    }
}

/// A staff contract's payload reads back as the contract, when its dates
/// are in order and no text holds a `|`.
pub proof fn lemma_staff_contract_round_trip(staff_id: usize, v: (usize, Seq<char>, Seq<char>, Seq<char>))
    requires
        !v.1.contains('|'),
        !v.2.contains('|'),
        !v.3.contains('|'),
        contract_dates_check(v.1, v.2) is Ok,
    ensures
        staff_contract_read(encode_utf8(record_text(staff_id, staff_contract_fields(v)))) == Ok::<
            (usize, (usize, Seq<char>, Seq<char>, Seq<char>)),
            BridgeError,
        >((staff_id, v)),
{
    let fields = staff_contract_fields(v);
    lemma_id_text(v.0);
    lemma_id_text(staff_id);
    let ps = seq![decimal_text(staff_id as nat)] + fields;
    assert forall|i: int| 0 <= i < ps.len() implies !(#[trigger] ps[i]).contains('|') by {}
    lemma_split_join(ps, '|');
    lemma_payload_text(record_text(staff_id, fields));
}

/// A player contract's payload reads back as the contract, when its dates
/// are in order and no text holds a `|`.
pub proof fn lemma_player_contract_round_trip(athlete_id: usize, t: PlayerContractTerms)
    requires
        !t.start_date.contains('|'),
        !t.end_date.contains('|'),
        !t.annual_salary.contains('|'),
        !t.transfer_fee.contains('|'),
        !t.squad_status.contains('|'),
        !t.pog_bonus.contains('|'),
        !t.league_bonus.contains('|'),
        !t.league_rank.contains('|'),
        !t.match_bonus.contains('|'),
        !t.win_bonus.contains('|'),
        contract_dates_check(t.start_date, t.end_date) is Ok,
    ensures
        player_contract_read(encode_utf8(record_text(athlete_id, player_contract_fields(t)))) == Ok::<
            (usize, PlayerContractTerms),
            BridgeError,
        >((athlete_id, t)),
{
    let fields = player_contract_fields(t);
    lemma_id_text(t.team_id);
    lemma_id_text(athlete_id);
    lemma_flag_text(t.pog_enabled);
    lemma_flag_text(t.league_enabled);
    lemma_flag_text(t.match_enabled);
    lemma_flag_text(t.win_enabled);
    let ps = seq![decimal_text(athlete_id as nat)] + fields;
    assert forall|i: int| 0 <= i < ps.len() implies !(#[trigger] ps[i]).contains('|') by {}
    lemma_split_join(ps, '|');
    lemma_payload_text(record_text(athlete_id, fields));
    let parsed = split_pieces(decode_utf8(encode_utf8(record_text(athlete_id, fields))), '|');
    assert(parsed == ps);
    assert(contract_terms_at(ps, 1) == Ok::<PlayerContractTerms, BridgeError>(t));
}

// ---------------------------------------------------------------------------
// Runtime settings
// ---------------------------------------------------------------------------
/// The payload that turns a runtime setting on or off for a team:
/// `"{team}|1"` or `"{team}|0"`.
pub fn runtime_toggle_payload(team_id: usize, enabled: bool) -> (r: Vec<u8>)
    ensures
        r@ == encode_utf8(record_text(team_id, seq![flag_text(enabled)])),
{
    let mut fields: Vec<Vec<char>> = Vec::new();
    fields.push(flag_chars(enabled));
    assert(views(fields@) =~= seq![flag_text(enabled)]);
    record_payload(team_id, &fields)
}

/// What the server reads from a runtime setting payload: nothing unless it
/// is text whose first field is a team id; the setting is on exactly when
/// the second field is `1`.
pub open spec fn runtime_toggle_read(payload: Seq<u8>) -> Option<(usize, bool)> {
    if !valid_utf8(payload) {
        None
    } else {
        let ps = split_pieces(decode_utf8(payload), '|');
        match parse_usize_spec(ps[0]) {
            None => None,
            Some(id) => Some((id, 1 < ps.len() && ps[1] == "1"@)),
        }
    }
}

/// Reads a runtime setting payload.
pub fn parse_runtime_toggle_payload(payload: &[u8]) -> (r: Option<(usize, bool)>)
    ensures
        r == runtime_toggle_read(payload@),
{
    let text = match payload_chars(payload) {
        Ok(t) => t,
        Err(_) => return None,
    };
    let ps = split_chars(&text, '|');
    proof {
        crate::text::lemma_split_pieces_nonempty(text@, '|');
    }
    let id = match parse_usize_chars(&ps[0]) {
        Some(n) => n,
        None => return None,
    };
    let enabled = 1 < ps.len() && crate::text::chars_eq_str(&ps[1], "1");
    Some((id, enabled))
}

/// A runtime setting's payload reads back as the team and the setting.
pub proof fn lemma_runtime_toggle_round_trip(team_id: usize, enabled: bool)
    ensures
        runtime_toggle_read(encode_utf8(record_text(team_id, seq![flag_text(enabled)]))) == Some((team_id, enabled)),
{
    lemma_flag_text(enabled);
    lemma_id_text(team_id);
    let ps = seq![decimal_text(team_id as nat), flag_text(enabled)];
    assert(seq![decimal_text(team_id as nat)] + seq![flag_text(enabled)] =~= ps);
    assert forall|i: int| 0 <= i < ps.len() implies !(#[trigger] ps[i]).contains('|') by {}
    lemma_split_join(ps, '|');
    lemma_payload_text(record_text(team_id, seq![flag_text(enabled)]));
    reveal_strlit("1");
    assert("1"@ =~= seq!['1']);
    assert(flag_text(enabled) == "1"@ <==> enabled);
}

/// A setting that is on but was applied to another team is sent again for
/// the current team, turned on; otherwise nothing is sent.
pub fn runtime_toggle_resend(enabled: bool, applied_team_id: usize, team_id: usize) -> (r: Option<Vec<u8>>)
    ensures
        match r {
            Some(p) => enabled && applied_team_id != team_id && p@ == encode_utf8(
                record_text(team_id, seq![flag_text(true)]),
            ),
            None => !enabled || applied_team_id == team_id,
        },
{
    if enabled && applied_team_id != team_id {
        Some(runtime_toggle_payload(team_id, true))
    } else {
        None
    }
}

// ---------------------------------------------------------------------------
// Contract defaults
// ---------------------------------------------------------------------------
/// How many characters make up exactly the first `n` UTF-8 bytes of a
/// text, if `n` falls on a character boundary within it (`str::get(..n)`).
pub open spec fn byte_prefix_count(s: Seq<char>, n: nat) -> Option<nat>
    decreases s.len(),
{
    if n == 0 {
        Some(0)
    } else if s.len() == 0 || char_width(s[0]) > n {
        None
    } else {
        match byte_prefix_count(s.drop_first(), (n - char_width(s[0])) as nat) {
            Some(k) => Some(k + 1),
            None => None,
        }
    }
}

/// `text.get(..n)`: the first `n` bytes of a text, when they end on a
/// character boundary.
pub open spec fn byte_prefix(s: Seq<char>, n: nat) -> Option<Seq<char>> {
    match byte_prefix_count(s, n) {
        Some(k) => Some(s.take(k as int)),
        None => None,
    }
}

fn width_of(c: char) -> (r: usize)
    ensures
        r == char_width(c),
{
    let u = c as u32;
    if u <= 0x7F {
        1
    } else if u <= 0x7FF {
        2
    } else if u <= 0xFFFF {
        3
    } else {
        4
    }
}

fn byte_prefix_chars(v: &Vec<char>, n: usize) -> (r: Option<Vec<char>>)
    ensures
        match (r, byte_prefix(v@, n as nat)) {
            (Some(p), Some(q)) => p@ == q,
            (None, None) => true,
            _ => false,
        },
{
    let mut i: usize = 0;
    let mut rest: usize = n;
    assert(v@.skip(0) == v@);
    while rest > 0 && i < v.len() && width_of(v[i]) <= rest
        invariant
            i <= v.len(),
            rest <= n,
            byte_prefix_count(v@, n as nat) == match byte_prefix_count(v@.skip(i as int), rest as nat) {
                Some(k) => Some((k + i) as nat),
                None => None::<nat>,
            },
        decreases v.len() - i,
    {
        assert(v@.skip(i as int).drop_first() == v@.skip(i + 1));
        rest = rest - width_of(v[i]);
        i += 1;
    }
    if rest == 0 {
        Some(crate::text::slice_chars(v, 0, i))
    } else {
        None
    }
}

/// The game date of a date text: its first ten bytes.
pub open spec fn game_date(text: Seq<char>) -> Option<Seq<char>> {
    byte_prefix(text, 10)
}

/// The latest game date among the texts that have one, by the order of
/// `String`s.
pub open spec fn latest_game_date(texts: Seq<Seq<char>>) -> Option<Seq<char>>
    decreases texts.len(),
{
    if texts.len() == 0 {
        None
    } else {
        let rest = latest_game_date(texts.drop_last());
        match game_date(texts.last()) {
            None => rest,
            Some(d) => match rest {
                None => Some(d),
                Some(c) => if lex_lt(c, d) {
                    Some(d)
                } else {
                    Some(c)
                },
            },
        }
    }
}

/// An `i32` in decimal, with a `-` when negative.
pub open spec fn signed_text(n: int) -> Seq<char> {
    if n < 0 {
        seq!['-'] + decimal_text((-n) as nat)
    } else {
        decimal_text(n as nat)
    }
}

/// Default contract dates: the contract starts on the latest game date
/// (`2026-01-01` when there is none) and ends on the 31st of December three
/// years after the year that the date's first four bytes give.
pub open spec fn contract_default_dates_of(texts: Seq<Seq<char>>) -> Result<(Seq<char>, Seq<char>), BridgeError> {
    let start = match latest_game_date(texts) {
        Some(d) => d,
        None => "2026-01-01"@,
    };
    match byte_prefix(start, 4) {
        None => Err(BridgeError::InvalidGameDate),
        Some(y) => match parse_i32_spec(y) {
            None => Err(BridgeError::InvalidGameDate),
            Some(year) => Ok((start, signed_text(year + 3) + "-12-31"@)),
        },
    }
}

/// The default start and end dates of a new contract, from the dates of
/// the game's news and of the contracts in force.
pub fn contract_default_dates(texts: &[String]) -> (r: Result<(String, String), BridgeError>)
    ensures
        match r {
            Ok((s, e)) => contract_default_dates_of(texts@.map_values(|t: String| t@)) == Ok::<
                (Seq<char>, Seq<char>),
                BridgeError,
            >((s@, e@)),
            Err(x) => contract_default_dates_of(texts@.map_values(|t: String| t@)) == Err::<
                (Seq<char>, Seq<char>),
                BridgeError,
            >(x),
        },
{
    let ghost all = texts@.map_values(|t: String| t@);
    let mut latest: Option<Vec<char>> = None;
    let mut i: usize = 0;
    while i < texts.len()
        invariant
            i <= texts.len(),
            all == texts@.map_values(|t: String| t@),
            match (latest, latest_game_date(all.take(i as int))) {
                (Some(p), Some(q)) => p@ == q,
                (None, None) => true,
                _ => false,
            },
        decreases texts.len() - i,
    {
        assert(all.take(i + 1).drop_last() == all.take(i as int));
        assert(all.take(i + 1).last() == texts@[i as int]@);
        let date = byte_prefix_chars(&chars_of(texts[i].as_str()), 10);
        if let Some(d) = date {
            let replace = match &latest {
                None => true,
                Some(c) => crate::text::text_less(c, &d),
            };
            if replace {
                latest = Some(d);
            }
        }
        i += 1;
    }
    assert(all.take(texts.len() as int) == all);
    let start = match latest {
        Some(d) => d,
        None => chars_of("2026-01-01"),
    };
    let year_text = match byte_prefix_chars(&start, 4) {
        Some(y) => y,
        None => return Err(BridgeError::InvalidGameDate),
    };
    let year = match crate::text::parse_i32_chars(&year_text) {
        Some(y) => y,
        None => return Err(BridgeError::InvalidGameDate),
    };
    proof {
        lemma_prefix_count_bound(start@, 4);
        lemma_short_year(year_text@);
    }
    let end_year = year + 3;
    let mut end: Vec<char> = Vec::new();
    if end_year < 0 {
        end.push('-');
        crate::text::push_decimal(&mut end, (-end_year) as u128);
    } else {
        crate::text::push_decimal(&mut end, end_year as u128);
    }
    crate::text::extend_str(&mut end, "-12-31");
    assert(end@ =~= signed_text(end_year as int) + "-12-31"@);
    Ok((string_of(&start), string_of(&end)))
}

proof fn lemma_prefix_count_bound(s: Seq<char>, n: nat)
    ensures
        byte_prefix_count(s, n) matches Some(k) ==> k <= n && k <= s.len(),
    decreases s.len(),
{
    if n > 0 && s.len() > 0 && char_width(s[0]) <= n {
        lemma_prefix_count_bound(s.drop_first(), (n - char_width(s[0])) as nat);
    }
}

proof fn lemma_digits_below(s: Seq<char>)
    requires
        all_digits(s),
    ensures
        digits_value(s) < pow10(s.len()),
    decreases s.len(),
{
    if s.len() > 0 {
        assert(all_digits(s.drop_last())) by {
            assert forall|i: int| 0 <= i < s.drop_last().len() implies is_digit(#[trigger] s.drop_last()[i]) by {
                assert(s.drop_last()[i] == s[i]);
            }
        }
        lemma_digits_below(s.drop_last());
        assert(is_digit(s[s.len() - 1]));
    }
}

/// A year of at most four characters is within four digits of zero.
proof fn lemma_short_year(t: Seq<char>)
    requires
        t.len() <= 4,
    ensures
        parse_i32_spec(t) matches Some(y) ==> -9999 <= y <= 9999,
{
    assert(pow10(0) == 1 && pow10(1) == 10 && pow10(2) == 100 && pow10(3) == 1000 && pow10(4) == 10000) by {
        reveal_with_fuel(pow10, 5);
    }
    if t.len() > 0 && t[0] == '-' {
        let body = t.drop_first();
        if body.len() > 0 && all_digits(body) {
            lemma_digits_below(body);
        }
    } else {
        let body = unsigned_body(t);
        if body.len() > 0 && all_digits(body) {
            lemma_digits_below(body);
        }
    }
}

/// The text of a staff contract splits on `|` into the staff id, the team,
/// the start date, the end date and the annual salary, in that order.
pub proof fn lemma_staff_contract_fields(id: usize, v: StaffContractValue)
    requires
        !v.start_date@.contains('|'),
        !v.end_date@.contains('|'),
        !v.annual_salary@.contains('|'),
    ensures
        ({
        let f = split_pieces(record_text(id, staff_contract_fields(staff_contract_view(v))), '|');
        &&& f.len() == 5
        &&& f[0] == decimal_text(id as nat)
        &&& f[1] == decimal_text(v.team_id as nat)
        &&& f[2] == v.start_date@
        &&& f[3] == v.end_date@
        &&& f[4] == v.annual_salary@
        }),
{
    let fs = staff_contract_fields(staff_contract_view(v));
    let ps = seq![decimal_text(id as nat)] + fs;
    lemma_id_text(id);
    lemma_id_text(v.team_id);
    assert forall|i: int| 0 <= i < ps.len() implies !(#[trigger] ps[i]).contains('|') by {
        if i > 0 {
            assert(ps[i] == fs[i - 1]);
        }
    }
    lemma_split_join(ps, '|');
}

/// The text of a player contract splits on `|` into the player id, the
/// team, the start and end dates, the annual salary, the transfer fee, the
/// squad status, then each bonus switch (`1` on, `0` off) before its
/// amount: player of the game, league (with its rank after the amount),
/// match and win.
pub proof fn lemma_player_contract_fields(id: usize, v: PlayerContractValue)
    requires
        !v.start_date@.contains('|'),
        !v.end_date@.contains('|'),
        !v.annual_salary@.contains('|'),
        !v.transfer_fee@.contains('|'),
        !v.squad_status@.contains('|'),
        !v.pog_bonus@.contains('|'),
        !v.league_bonus@.contains('|'),
        !v.league_rank@.contains('|'),
        !v.match_bonus@.contains('|'),
        !v.win_bonus@.contains('|'),
    ensures
        ({
        let f = split_pieces(record_text(id, player_contract_fields(player_contract_terms(v))), '|');
        &&& f.len() == 16
        &&& f[0] == decimal_text(id as nat)
        &&& f[1] == decimal_text(v.team_id as nat)
        &&& f[2] == v.start_date@
        &&& f[3] == v.end_date@
        &&& f[4] == v.annual_salary@
        &&& f[5] == v.transfer_fee@
        &&& f[6] == v.squad_status@
        &&& f[7] == (if v.pog_enabled { seq!['1'] } else { seq!['0'] })
        &&& f[8] == v.pog_bonus@
        &&& f[9] == (if v.league_enabled { seq!['1'] } else { seq!['0'] })
        &&& f[10] == v.league_bonus@
        &&& f[11] == v.league_rank@
        &&& f[12] == (if v.match_enabled { seq!['1'] } else { seq!['0'] })
        &&& f[13] == v.match_bonus@
        &&& f[14] == (if v.win_enabled { seq!['1'] } else { seq!['0'] })
        &&& f[15] == v.win_bonus@
        }),
{
    let fs = player_contract_fields(player_contract_terms(v));
    let ps = seq![decimal_text(id as nat)] + fs;
    lemma_id_text(id);
    lemma_id_text(v.team_id);
    lemma_flag_text(v.pog_enabled);
    lemma_flag_text(v.league_enabled);
    lemma_flag_text(v.match_enabled);
    lemma_flag_text(v.win_enabled);
    assert forall|i: int| 0 <= i < ps.len() implies !(#[trigger] ps[i]).contains('|') by {
        if i > 0 {
            assert(ps[i] == fs[i - 1]);
        }
    }
    lemma_split_join(ps, '|');
}

} // verus!
