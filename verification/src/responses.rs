//! The Bridge's `OK|...` responses: fixed fields separated by `|`, free text
//! in hexadecimal, list rows separated by `;` with their fields separated
//! by `:`.

use vstd::prelude::*;
use crate::error::BridgeError;
use crate::hex::{hex_encode, hex_join_records, hex_joined, hex_text};
use crate::text::{chars_of, decimal_text, join_chars, join_pieces, push_decimal, string_of, views};

verus! {

broadcast use vstd::seq_lib::group_seq_properties;

/// The Bridge build that the global history responses name.
pub const BRIDGE_VERSION: &'static str = "0.2.59";

/// The version of the line protocol between the editor and the Bridge.
pub const BRIDGE_PROTOCOL_VERSION: u32 = 19;

/// The game build that the global history responses name.
pub const TFM2_TARGET_VERSION: &'static str = "0.5.5";

/// The Bridge release that answers a ping, the one the editor requires.
pub const BRIDGE_RELEASE: &'static str = "0.2.79";

/// The game version that a ping reports as supported.
pub const SUPPORTED_GAME_VERSION: &'static str = "0.5.8";

fn number_chars(n: usize) -> (r: Vec<char>)
    ensures
        r@ == decimal_text(n as nat),
{
    let mut v: Vec<char> = Vec::new();
    push_decimal(&mut v, n as u128);
    v
}

fn hex_chars(s: &str) -> (r: Vec<char>)
    ensures
        r@ == hex_text(s@),
{
    chars_of(hex_encode(s).as_str())
}

/// An optional text, empty when absent.
pub open spec fn optional_text(o: Option<String>) -> Seq<char> {
    match o {
        Some(s) => s@,
        None => Seq::empty(),
    }
}

fn optional_chars(o: &Option<String>) -> (r: Vec<char>)
    ensures
        r@ == optional_text(*o),
{
    match o {
        Some(s) => chars_of(s.as_str()),
        None => Vec::new(),
    }
}

/// Fields joined with a separator, as a `String`.
fn joined(fields: &Vec<Vec<char>>, sep: char) -> (r: String)
    ensures
        r@ == join_pieces(views(fields@), sep),
{
    string_of(&join_chars(fields, sep))
}

/// A row of the player list.
pub struct PlayerListEntry {
    pub id: usize,
    pub name: String,
    pub age: String,
    pub team: String,
    pub region: String,
    pub position: String,
    pub actual_rating: String,
    pub potential_rating: String,
    pub actual_potential: String,
    pub annual_salary: String,
    pub transfer_fee: String,
    pub contract_end_date: String,
    pub last_hit: String,
    pub skill_avoid: String,
    pub skill_hit: String,
    pub control_speed: String,
    pub positioning: String,
    pub judgement: String,
    pub mental: String,
    pub concentration: String,
    pub order: String,
    pub roaming: String,
    pub aggressive: String,
    pub ego: String,
}

/// A row of the staff list.
pub struct StaffListEntry {
    pub id: usize,
    pub name: String,
    pub age: String,
    pub team: String,
    pub role: String,
    pub banpick: String,
    pub strategy: String,
    pub negotiation: String,
    pub judge_ability: String,
    pub judge_potential: String,
    pub feedback: String,
    pub power_analysis: String,
    pub control_coaching: String,
    pub judgment_coaching: String,
    pub mental_coaching: String,
    pub annual_salary: String,
    pub contract_end_date: String,
    pub communication: String,
}

/// A staff member as the staff editor shows it.
pub struct StaffSnapshot {
    pub id: usize,
    pub name: String,
    pub age: String,
    pub role: String,
    pub team: String,
    pub banpick: String,
    pub strategy: String,
    pub negotiation: String,
    pub judge_ability: String,
    pub judge_potential: String,
    pub feedback: String,
    pub power_analysis: String,
    pub control_coaching: String,
    pub judgment_coaching: String,
    pub mental_coaching: String,
    pub annual_salary: String,
    pub contract_team_id: String,
    pub contract_start_date: String,
    pub contract_end_date: String,
    pub communication_raw: String,
}

/// A player as the player editor shows it.
pub struct PlayerSnapshot {
    pub id: usize,
    pub name: String,
    pub last_hit: String,
    pub skill_avoid: String,
    pub skill_hit: String,
    pub control_speed: String,
    pub positioning: String,
    pub judgement: String,
    pub mental: String,
    pub concentration: String,
    pub order: String,
    pub roaming: String,
    pub aggressive: String,
    pub ego: String,
    pub top: String,
    pub jungle: String,
    pub mid: String,
    pub bottom: String,
    pub support: String,
    pub potential: String,
    pub annual_salary: String,
    pub weekly_salary: String,
    pub contract_team_id: String,
    pub contract_start_date: String,
    pub contract_end_date: String,
    pub transfer_fee: String,
    pub squad_status: String,
    pub incentive_pog_bonus: String,
    pub incentive_league_bonus: String,
    pub incentive_league_rank: String,
    pub incentive_match_bonus: String,
    pub incentive_win_bonus: String,
    pub primary_region: String,
    pub communication_raw: String,
    pub communication_xp_raw: String,
}

/// A row of the team list; amounts and the roster rating as the game prints them.
pub struct TeamListEntry {
    pub id: usize,
    pub display_name: String,
    pub manager_name: String,
    pub league_id: usize,
    pub is_player_team: bool,
    pub roster_size: usize,
    pub staff_count: usize,
    pub roster_rating: Option<String>,
    pub merchandise_facility_grade: String,
    pub stadium_grade: String,
    pub training_facility_grade: String,
    pub stadium_name: String,
    pub stadium_capacity: String,
    pub total_home_attendance: String,
    pub home_match_count: String,
    pub total_entrance_income: String,
    pub popularity: String,
    pub fan_expectation: String,
    pub fan_satisfaction: String,
    pub fan_count: String,
    pub fan_momentum: String,
    pub gaming_house_level: String,
    pub welfare: String,
    pub total_balance: String,
    pub transfer_budget: String,
    pub salary_budget: String,
}

/// A team's management settings, each as the game's own text.
pub struct TeamManagementSnapshot {
    pub team_id: usize,
    pub management: String,
    pub current_strategy: String,
    pub last_strategy: String,
    pub team_color_strategy: String,
    pub merchandise: String,
    pub champion_setup: String,
    pub gaming_house: String,
}

pub open spec fn player_entry_fields(p: PlayerListEntry) -> Seq<Seq<char>> {
    seq![
        decimal_text(p.id as nat),
        hex_text(p.name@),
        hex_text(p.age@),
        hex_text(p.team@),
        hex_text(p.region@),
        hex_text(p.position@),
        hex_text(p.actual_rating@),
        hex_text(p.potential_rating@),
        hex_text(p.actual_potential@),
        hex_text(p.annual_salary@),
        hex_text(p.transfer_fee@),
        hex_text(p.contract_end_date@),
        hex_text(p.last_hit@),
        hex_text(p.skill_avoid@),
        hex_text(p.skill_hit@),
        hex_text(p.control_speed@),
        hex_text(p.positioning@),
        hex_text(p.judgement@),
        hex_text(p.mental@),
        hex_text(p.concentration@),
        hex_text(p.order@),
        hex_text(p.roaming@),
        hex_text(p.aggressive@),
        hex_text(p.ego@),
    ]
}

fn player_entry_chars(p: &PlayerListEntry) -> (r: Vec<Vec<char>>)
    ensures
        views(r@) == player_entry_fields(*p),
{
    let mut r: Vec<Vec<char>> = Vec::new();
    r.push(number_chars(p.id));
    r.push(hex_chars(p.name.as_str()));
    r.push(hex_chars(p.age.as_str()));
    r.push(hex_chars(p.team.as_str()));
    r.push(hex_chars(p.region.as_str()));
    r.push(hex_chars(p.position.as_str()));
    r.push(hex_chars(p.actual_rating.as_str()));
    r.push(hex_chars(p.potential_rating.as_str()));
    r.push(hex_chars(p.actual_potential.as_str()));
    r.push(hex_chars(p.annual_salary.as_str()));
    r.push(hex_chars(p.transfer_fee.as_str()));
    r.push(hex_chars(p.contract_end_date.as_str()));
    r.push(hex_chars(p.last_hit.as_str()));
    r.push(hex_chars(p.skill_avoid.as_str()));
    r.push(hex_chars(p.skill_hit.as_str()));
    r.push(hex_chars(p.control_speed.as_str()));
    r.push(hex_chars(p.positioning.as_str()));
    r.push(hex_chars(p.judgement.as_str()));
    r.push(hex_chars(p.mental.as_str()));
    r.push(hex_chars(p.concentration.as_str()));
    r.push(hex_chars(p.order.as_str()));
    r.push(hex_chars(p.roaming.as_str()));
    r.push(hex_chars(p.aggressive.as_str()));
    r.push(hex_chars(p.ego.as_str()));
    assert(views(r@) =~= player_entry_fields(*p));
    r
}

pub open spec fn staff_entry_fields(s: StaffListEntry) -> Seq<Seq<char>> {
    seq![
        decimal_text(s.id as nat),
        hex_text(s.name@),
        hex_text(s.age@),
        hex_text(s.team@),
        hex_text(s.role@),
        hex_text(s.banpick@),
        hex_text(s.strategy@),
        hex_text(s.negotiation@),
        hex_text(s.judge_ability@),
        hex_text(s.judge_potential@),
        hex_text(s.feedback@),
        hex_text(s.power_analysis@),
        hex_text(s.control_coaching@),
        hex_text(s.judgment_coaching@),
        hex_text(s.mental_coaching@),
        hex_text(s.annual_salary@),
        hex_text(s.contract_end_date@),
        hex_text(s.communication@),
    ]
}

fn staff_entry_chars(s: &StaffListEntry) -> (r: Vec<Vec<char>>)
    ensures
        views(r@) == staff_entry_fields(*s),
{
    let mut r: Vec<Vec<char>> = Vec::new();
    r.push(number_chars(s.id));
    r.push(hex_chars(s.name.as_str()));
    r.push(hex_chars(s.age.as_str()));
    r.push(hex_chars(s.team.as_str()));
    r.push(hex_chars(s.role.as_str()));
    r.push(hex_chars(s.banpick.as_str()));
    r.push(hex_chars(s.strategy.as_str()));
    r.push(hex_chars(s.negotiation.as_str()));
    r.push(hex_chars(s.judge_ability.as_str()));
    r.push(hex_chars(s.judge_potential.as_str()));
    r.push(hex_chars(s.feedback.as_str()));
    r.push(hex_chars(s.power_analysis.as_str()));
    r.push(hex_chars(s.control_coaching.as_str()));
    r.push(hex_chars(s.judgment_coaching.as_str()));
    r.push(hex_chars(s.mental_coaching.as_str()));
    r.push(hex_chars(s.annual_salary.as_str()));
    r.push(hex_chars(s.contract_end_date.as_str()));
    r.push(hex_chars(s.communication.as_str()));
    assert(views(r@) =~= staff_entry_fields(*s));
    r
}

pub open spec fn staff_response_fields(s: StaffSnapshot) -> Seq<Seq<char>> {
    seq![
        "OK"@,
        "STAFF"@,
        decimal_text(s.id as nat),
        hex_text(s.name@),
        hex_text(s.age@),
        hex_text(s.role@),
        hex_text(s.team@),
        s.banpick@,
        s.strategy@,
        s.negotiation@,
        s.judge_ability@,
        s.judge_potential@,
        s.feedback@,
        s.power_analysis@,
        s.control_coaching@,
        s.judgment_coaching@,
        s.mental_coaching@,
        s.annual_salary@,
        s.contract_team_id@,
        hex_text(s.contract_start_date@),
        hex_text(s.contract_end_date@),
        hex_text(s.communication_raw@),
    ]
}

fn staff_response_chars(s: &StaffSnapshot) -> (r: Vec<Vec<char>>)
    ensures
        views(r@) == staff_response_fields(*s),
{
    let mut r: Vec<Vec<char>> = Vec::new();
    r.push(chars_of("OK"));
    r.push(chars_of("STAFF"));
    r.push(number_chars(s.id));
    r.push(hex_chars(s.name.as_str()));
    r.push(hex_chars(s.age.as_str()));
    r.push(hex_chars(s.role.as_str()));
    r.push(hex_chars(s.team.as_str()));
    r.push(chars_of(s.banpick.as_str()));
    r.push(chars_of(s.strategy.as_str()));
    r.push(chars_of(s.negotiation.as_str()));
    r.push(chars_of(s.judge_ability.as_str()));
    r.push(chars_of(s.judge_potential.as_str()));
    r.push(chars_of(s.feedback.as_str()));
    r.push(chars_of(s.power_analysis.as_str()));
    r.push(chars_of(s.control_coaching.as_str()));
    r.push(chars_of(s.judgment_coaching.as_str()));
    r.push(chars_of(s.mental_coaching.as_str()));
    r.push(chars_of(s.annual_salary.as_str()));
    r.push(chars_of(s.contract_team_id.as_str()));
    r.push(hex_chars(s.contract_start_date.as_str()));
    r.push(hex_chars(s.contract_end_date.as_str()));
    r.push(hex_chars(s.communication_raw.as_str()));
    assert(views(r@) =~= staff_response_fields(*s));
    r
}

pub open spec fn player_response_fields(p: PlayerSnapshot) -> Seq<Seq<char>> {
    seq![
        "OK"@,
        "PLAYER"@,
        decimal_text(p.id as nat),
        hex_text(p.name@),
        p.last_hit@,
        p.skill_avoid@,
        p.skill_hit@,
        p.control_speed@,
        p.positioning@,
        p.judgement@,
        p.mental@,
        p.concentration@,
        p.order@,
        p.roaming@,
        p.aggressive@,
        p.ego@,
        p.top@,
        p.jungle@,
        p.mid@,
        p.bottom@,
        p.support@,
        p.potential@,
        p.annual_salary@,
        p.weekly_salary@,
        p.contract_team_id@,
        hex_text(p.contract_start_date@),
        hex_text(p.contract_end_date@),
        p.transfer_fee@,
        hex_text(p.squad_status@),
        p.incentive_pog_bonus@,
        p.incentive_league_bonus@,
        p.incentive_league_rank@,
        p.incentive_match_bonus@,
        p.incentive_win_bonus@,
        p.primary_region@,
        hex_text(p.communication_raw@),
        hex_text(p.communication_xp_raw@),
    ]
}

fn player_response_chars(p: &PlayerSnapshot) -> (r: Vec<Vec<char>>)
    ensures
        views(r@) == player_response_fields(*p),
{
    let mut r: Vec<Vec<char>> = Vec::new();
    r.push(chars_of("OK"));
    r.push(chars_of("PLAYER"));
    r.push(number_chars(p.id));
    r.push(hex_chars(p.name.as_str()));
    r.push(chars_of(p.last_hit.as_str()));
    r.push(chars_of(p.skill_avoid.as_str()));
    r.push(chars_of(p.skill_hit.as_str()));
    r.push(chars_of(p.control_speed.as_str()));
    r.push(chars_of(p.positioning.as_str()));
    r.push(chars_of(p.judgement.as_str()));
    r.push(chars_of(p.mental.as_str()));
    r.push(chars_of(p.concentration.as_str()));
    r.push(chars_of(p.order.as_str()));
    r.push(chars_of(p.roaming.as_str()));
    r.push(chars_of(p.aggressive.as_str()));
    r.push(chars_of(p.ego.as_str()));
    r.push(chars_of(p.top.as_str()));
    r.push(chars_of(p.jungle.as_str()));
    r.push(chars_of(p.mid.as_str()));
    r.push(chars_of(p.bottom.as_str()));
    r.push(chars_of(p.support.as_str()));
    r.push(chars_of(p.potential.as_str()));
    r.push(chars_of(p.annual_salary.as_str()));
    r.push(chars_of(p.weekly_salary.as_str()));
    r.push(chars_of(p.contract_team_id.as_str()));
    r.push(hex_chars(p.contract_start_date.as_str()));
    r.push(hex_chars(p.contract_end_date.as_str()));
    r.push(chars_of(p.transfer_fee.as_str()));
    r.push(hex_chars(p.squad_status.as_str()));
    r.push(chars_of(p.incentive_pog_bonus.as_str()));
    r.push(chars_of(p.incentive_league_bonus.as_str()));
    r.push(chars_of(p.incentive_league_rank.as_str()));
    r.push(chars_of(p.incentive_match_bonus.as_str()));
    r.push(chars_of(p.incentive_win_bonus.as_str()));
    r.push(chars_of(p.primary_region.as_str()));
    r.push(hex_chars(p.communication_raw.as_str()));
    r.push(hex_chars(p.communication_xp_raw.as_str()));
    assert(views(r@) =~= player_response_fields(*p));
    r
}

pub open spec fn team_entry_fields(t: TeamListEntry) -> Seq<Seq<char>> {
    seq![
        decimal_text(t.id as nat),
        hex_text(t.display_name@),
        hex_text(t.manager_name@),
        decimal_text(t.league_id as nat),
        flag_text(t.is_player_team),
        decimal_text(t.roster_size as nat),
        decimal_text(t.staff_count as nat),
        optional_text(t.roster_rating),
        hex_text(t.merchandise_facility_grade@),
        hex_text(t.stadium_grade@),
        hex_text(t.training_facility_grade@),
        t.total_balance@,
        t.transfer_budget@,
        t.salary_budget@,
        hex_text(t.stadium_name@),
        t.stadium_capacity@,
        t.total_home_attendance@,
        t.home_match_count@,
        t.total_entrance_income@,
        t.popularity@,
        hex_text(t.fan_expectation@),
        hex_text(t.fan_satisfaction@),
        t.fan_count@,
        t.fan_momentum@,
        hex_text(t.gaming_house_level@),
        t.welfare@,
    ]
}

fn team_entry_chars(t: &TeamListEntry) -> (r: Vec<Vec<char>>)
    ensures
        views(r@) == team_entry_fields(*t),
{
    let mut r: Vec<Vec<char>> = Vec::new();
    r.push(number_chars(t.id));
    r.push(hex_chars(t.display_name.as_str()));
    r.push(hex_chars(t.manager_name.as_str()));
    r.push(number_chars(t.league_id));
    r.push(flag_chars(t.is_player_team));
    r.push(number_chars(t.roster_size));
    r.push(number_chars(t.staff_count));
    r.push(optional_chars(&t.roster_rating));
    r.push(hex_chars(t.merchandise_facility_grade.as_str()));
    r.push(hex_chars(t.stadium_grade.as_str()));
    r.push(hex_chars(t.training_facility_grade.as_str()));
    r.push(chars_of(t.total_balance.as_str()));
    r.push(chars_of(t.transfer_budget.as_str()));
    r.push(chars_of(t.salary_budget.as_str()));
    r.push(hex_chars(t.stadium_name.as_str()));
    r.push(chars_of(t.stadium_capacity.as_str()));
    r.push(chars_of(t.total_home_attendance.as_str()));
    r.push(chars_of(t.home_match_count.as_str()));
    r.push(chars_of(t.total_entrance_income.as_str()));
    r.push(chars_of(t.popularity.as_str()));
    r.push(hex_chars(t.fan_expectation.as_str()));
    r.push(hex_chars(t.fan_satisfaction.as_str()));
    r.push(chars_of(t.fan_count.as_str()));
    r.push(chars_of(t.fan_momentum.as_str()));
    r.push(hex_chars(t.gaming_house_level.as_str()));
    r.push(chars_of(t.welfare.as_str()));
    assert(views(r@) =~= team_entry_fields(*t));
    r
}

pub open spec fn team_management_fields(t: TeamManagementSnapshot) -> Seq<Seq<char>> {
    seq![
        "OK"@,
        "TEAM_MANAGEMENT"@,
        decimal_text(t.team_id as nat),
        hex_text(t.management@),
        hex_text(t.current_strategy@),
        hex_text(t.last_strategy@),
        hex_text(t.team_color_strategy@),
        hex_text(t.merchandise@),
        hex_text(t.champion_setup@),
        hex_text(t.gaming_house@),
    ]
}

fn team_management_chars(t: &TeamManagementSnapshot) -> (r: Vec<Vec<char>>)
    ensures
        views(r@) == team_management_fields(*t),
{
    let mut r: Vec<Vec<char>> = Vec::new();
    r.push(chars_of("OK"));
    r.push(chars_of("TEAM_MANAGEMENT"));
    r.push(number_chars(t.team_id));
    r.push(hex_chars(t.management.as_str()));
    r.push(hex_chars(t.current_strategy.as_str()));
    r.push(hex_chars(t.last_strategy.as_str()));
    r.push(hex_chars(t.team_color_strategy.as_str()));
    r.push(hex_chars(t.merchandise.as_str()));
    r.push(hex_chars(t.champion_setup.as_str()));
    r.push(hex_chars(t.gaming_house.as_str()));
    assert(views(r@) =~= team_management_fields(*t));
    r
}

/// A player's fields after `OK|PLAYER`, `|`-separated.
pub fn response_ok_player(player: PlayerSnapshot) -> (r: String)
    ensures
        r@ == join_pieces(player_response_fields(player), '|'),
{
    joined(&player_response_chars(&player), '|')
}

/// A staff member's fields after `OK|STAFF`, `|`-separated.
pub fn response_ok_staff(staff: StaffSnapshot) -> (r: String)
    ensures
        r@ == join_pieces(staff_response_fields(staff), '|'),
{
    joined(&staff_response_chars(&staff), '|')
}

/// A team's management settings after `OK|TEAM_MANAGEMENT`.
pub fn response_ok_team_management(snapshot: TeamManagementSnapshot) -> (r: String)
    ensures
        r@ == join_pieces(team_management_fields(snapshot), '|'),
{
    joined(&team_management_chars(&snapshot), '|')
}

/// `OK|{kind}|{count}|{rows}`.
pub open spec fn list_response(kind: Seq<char>, count: nat, rows: Seq<char>) -> Seq<char> {
    join_pieces(seq!["OK"@, kind, decimal_text(count), rows], '|')
}

/// One row of the player list: its fields `:`-separated.
#[verifier::opaque]
pub open spec fn player_row(p: PlayerListEntry) -> Seq<char> {
    join_pieces(player_entry_fields(p), ':')
}

fn player_row_chars(p: &PlayerListEntry) -> (r: Vec<char>)
    ensures
        r@ == player_row(*p),
{
    proof {
        reveal(player_row);
    }
    join_chars(&player_entry_chars(p), ':')
}

/// One row of the staff list: its fields `:`-separated.
#[verifier::opaque]
pub open spec fn staff_row(s: StaffListEntry) -> Seq<char> {
    join_pieces(staff_entry_fields(s), ':')
}

fn staff_row_chars(s: &StaffListEntry) -> (r: Vec<char>)
    ensures
        r@ == staff_row(*s),
{
    proof {
        reveal(staff_row);
    }
    join_chars(&staff_entry_chars(s), ':')
}

/// One row of the team list: its fields `:`-separated.
#[verifier::opaque]
pub open spec fn team_row(t: TeamListEntry) -> Seq<char> {
    join_pieces(team_entry_fields(t), ':')
}

fn team_row_chars(t: &TeamListEntry) -> (r: Vec<char>)
    ensures
        r@ == team_row(*t),
{
    proof {
        reveal(team_row);
    }
    join_chars(&team_entry_chars(t), ':')
}

/// The player list: each row's fields `:`-separated, rows `;`-separated.
pub open spec fn player_rows(ps: Seq<PlayerListEntry>) -> Seq<char> {
    join_pieces(ps.map_values(|p: PlayerListEntry| player_row(p)), ';')
}

/// The staff list: each row's fields `:`-separated, rows `;`-separated.
pub open spec fn staff_rows(ss: Seq<StaffListEntry>) -> Seq<char> {
    join_pieces(ss.map_values(|s: StaffListEntry| staff_row(s)), ';')
}

/// The player list response.
pub fn response_ok_players(players: &[PlayerListEntry]) -> (r: String)
    ensures
        r@ == list_response("PLAYERS"@, players@.len(), player_rows(players@)),
{
    let mut rows: Vec<Vec<char>> = Vec::new();
    let mut i: usize = 0;
    while i < players.len()
        invariant
            i <= players.len(),
            views(rows@) == players@.take(i as int).map_values(
                |p: PlayerListEntry| player_row(p),
            ),
        decreases players.len() - i,
    {
        let row = player_row_chars(&players[i]);
        let ghost before = rows@;
        rows.push(row);
        i += 1;
        assert(players@.take(i as int) == players@.take(i - 1).push(players@[i - 1]));
        assert(views(rows@) =~= views(before).push(player_row(players@[i - 1])));
        assert(views(rows@) =~= players@.take(i as int).map_values(
            |p: PlayerListEntry| player_row(p),
        ));
    }
    assert(players@.take(players.len() as int) == players@);
    let mut out: Vec<Vec<char>> = Vec::new();
    out.push(chars_of("OK"));
    out.push(chars_of("PLAYERS"));
    out.push(number_chars(players.len()));
    out.push(join_chars(&rows, ';'));
    assert(views(out@) =~= seq!["OK"@, "PLAYERS"@, decimal_text(players@.len()), player_rows(players@)]);
    joined(&out, '|')
}

/// The staff list response.
pub fn response_ok_staffs(staffs: &[StaffListEntry]) -> (r: String)
    ensures
        r@ == list_response("STAFFS"@, staffs@.len(), staff_rows(staffs@)),
{
    let mut rows: Vec<Vec<char>> = Vec::new();
    let mut i: usize = 0;
    while i < staffs.len()
        invariant
            i <= staffs.len(),
            views(rows@) == staffs@.take(i as int).map_values(
                |s: StaffListEntry| staff_row(s),
            ),
        decreases staffs.len() - i,
    {
        let row = staff_row_chars(&staffs[i]);
        let ghost before = rows@;
        rows.push(row);
        i += 1;
        assert(staffs@.take(i as int) == staffs@.take(i - 1).push(staffs@[i - 1]));
        assert(views(rows@) =~= views(before).push(staff_row(staffs@[i - 1])));
        assert(views(rows@) =~= staffs@.take(i as int).map_values(
            |s: StaffListEntry| staff_row(s),
        ));
    }
    assert(staffs@.take(staffs.len() as int) == staffs@);
    let mut out: Vec<Vec<char>> = Vec::new();
    out.push(chars_of("OK"));
    out.push(chars_of("STAFFS"));
    out.push(number_chars(staffs.len()));
    out.push(join_chars(&rows, ';'));
    assert(views(out@) =~= seq!["OK"@, "STAFFS"@, decimal_text(staffs@.len()), staff_rows(staffs@)]);
    joined(&out, '|')
}

/// The team list: each row's fields `:`-separated, rows `;`-separated.
pub open spec fn team_rows(ts: Seq<TeamListEntry>) -> Seq<char> {
    join_pieces(ts.map_values(|t: TeamListEntry| team_row(t)), ';')
}

/// The team list response.
pub fn response_ok_teams(teams: &[TeamListEntry]) -> (r: String)
    ensures
        r@ == list_response("TEAMS"@, teams@.len(), team_rows(teams@)),
{
    let mut rows: Vec<Vec<char>> = Vec::new();
    let mut i: usize = 0;
    while i < teams.len()
        invariant
            i <= teams.len(),
            views(rows@) == teams@.take(i as int).map_values(
                |t: TeamListEntry| team_row(t),
            ),
        decreases teams.len() - i,
    {
        let row = team_row_chars(&teams[i]);
        let ghost before = rows@;
        rows.push(row);
        i += 1;
        assert(teams@.take(i as int) == teams@.take(i - 1).push(teams@[i - 1]));
        assert(views(rows@) =~= views(before).push(team_row(teams@[i - 1])));
        assert(views(rows@) =~= teams@.take(i as int).map_values(
            |t: TeamListEntry| team_row(t),
        ));
    }
    assert(teams@.take(teams.len() as int) == teams@);
    let mut out: Vec<Vec<char>> = Vec::new();
    out.push(chars_of("OK"));
    out.push(chars_of("TEAMS"));
    out.push(number_chars(teams.len()));
    out.push(join_chars(&rows, ';'));
    assert(views(out@) =~= seq!["OK"@, "TEAMS"@, decimal_text(teams@.len()), team_rows(teams@)]);
    joined(&out, '|')
}

/// `OK|{kind}|{hex raw}`: a raw game value for inspection.
pub open spec fn probe_response(kind: Seq<char>, raw: Seq<char>) -> Seq<char> {
    join_pieces(seq!["OK"@, kind, hex_text(raw)], '|')
}

fn probe(kind: &str, raw: &str) -> (r: String)
    ensures
        r@ == probe_response(kind@, raw@),
{
    let mut out: Vec<Vec<char>> = Vec::new();
    out.push(chars_of("OK"));
    out.push(chars_of(kind));
    out.push(hex_chars(raw));
    assert(views(out@) =~= seq!["OK"@, kind@, hex_text(raw@)]);
    joined(&out, '|')
}

/// A staff contract's raw value.
pub fn response_ok_staff_contract_probe(raw: &str) -> (r: String)
    ensures
        r@ == probe_response("STAFF_CONTRACT_PROBE"@, raw@),
{
    probe("STAFF_CONTRACT_PROBE", raw)
}

/// A player contract's raw value.
pub fn response_ok_player_contract_probe(raw: &str) -> (r: String)
    ensures
        r@ == probe_response("PLAYER_CONTRACT_PROBE"@, raw@),
{
    probe("PLAYER_CONTRACT_PROBE", raw)
}

/// A team's raw value.
pub fn response_ok_team_probe(raw: &str) -> (r: String)
    ensures
        r@ == probe_response("TEAM_PROBE"@, raw@),
{
    probe("TEAM_PROBE", raw)
}

/// The strategy options the game offers.
pub fn response_ok_team_strategy_options(raw: &str) -> (r: String)
    ensures
        r@ == probe_response("TEAM_STRATEGY_OPTIONS"@, raw@),
{
    probe("TEAM_STRATEGY_OPTIONS", raw)
}

/// A team's raw fan momentum.
pub fn response_ok_team_fan_momentum_probe(raw: &str) -> (r: String)
    ensures
        r@ == probe_response("TEAM_FAN_MOMENTUM_PROBE"@, raw@),
{
    probe("TEAM_FAN_MOMENTUM_PROBE", raw)
}

/// The strategies recorded in a team's replays.
pub fn response_ok_team_replay_strategies(raw: &str) -> (r: String)
    ensures
        r@ == probe_response("TEAM_REPLAY_STRATEGIES"@, raw@),
{
    probe("TEAM_REPLAY_STRATEGIES", raw)
}

/// `OK|MASTERY_PROBE|{hex of mastery state}|{hex of available champions}`.
pub open spec fn mastery_probe_response(mastery_state: Seq<char>, available_champions: Seq<char>) -> Seq<char> {
    join_pieces(seq!["OK"@, "MASTERY_PROBE"@, hex_text(mastery_state), hex_text(available_champions)], '|')
}

/// A player's mastery state and the champions available.
pub fn response_ok_champion_mastery_probe(mastery_state: &str, available_champions: &str) -> (r: String)
    ensures
        r@ == mastery_probe_response(mastery_state@, available_champions@),
{
    let mut out: Vec<Vec<char>> = Vec::new();
    out.push(chars_of("OK"));
    out.push(chars_of("MASTERY_PROBE"));
    out.push(hex_chars(mastery_state));
    out.push(hex_chars(available_champions));
    assert(views(out@) =~= seq!["OK"@, "MASTERY_PROBE"@, hex_text(mastery_state@), hex_text(available_champions@)]);
    joined(&out, '|')
}

/// A player's stamina and condition.
pub struct PlayerConditionSnapshot {
    pub athlete_id: usize,
    pub stamina: String,
    pub condition: String,
}

/// `OK|PLAYER_CONDITION|{id}|{stamina}|{condition}`.
pub open spec fn player_condition_response(snapshot: PlayerConditionSnapshot) -> Seq<char> {
    join_pieces(
        seq!["OK"@, "PLAYER_CONDITION"@, decimal_text(snapshot.athlete_id as nat), snapshot.stamina@, snapshot.condition@],
        '|',
    )
}

/// A player's stamina and condition, framed.
pub fn response_ok_player_condition(snapshot: PlayerConditionSnapshot) -> (r: String)
    ensures
        r@ == player_condition_response(snapshot),
{
    let mut out: Vec<Vec<char>> = Vec::new();
    out.push(chars_of("OK"));
    out.push(chars_of("PLAYER_CONDITION"));
    out.push(number_chars(snapshot.athlete_id));
    out.push(chars_of(snapshot.stamina.as_str()));
    out.push(chars_of(snapshot.condition.as_str()));
    assert(views(out@) =~= seq!["OK"@, "PLAYER_CONDITION"@, decimal_text(snapshot.athlete_id as nat), snapshot.stamina@, snapshot.condition@]);
    joined(&out, '|')
}

/// The dates and salary a new contract starts from.
pub struct ContractDefaults {
    pub start_date: String,
    pub end_date: String,
    pub annual_salary: String,
}

/// `OK|CONTRACT_DEFAULTS|{start}|{end}|{salary}`.
pub open spec fn contract_defaults_response(values: ContractDefaults) -> Seq<char> {
    join_pieces(seq!["OK"@, "CONTRACT_DEFAULTS"@, values.start_date@, values.end_date@, values.annual_salary@], '|')
}

/// The dates and salary a new contract starts from, framed.
pub fn response_ok_contract_defaults(values: &ContractDefaults) -> (r: String)
    ensures
        r@ == contract_defaults_response(*values),
{
    let mut out: Vec<Vec<char>> = Vec::new();
    out.push(chars_of("OK"));
    out.push(chars_of("CONTRACT_DEFAULTS"));
    out.push(chars_of(values.start_date.as_str()));
    out.push(chars_of(values.end_date.as_str()));
    out.push(chars_of(values.annual_salary.as_str()));
    assert(views(out@) =~= seq!["OK"@, "CONTRACT_DEFAULTS"@, values.start_date@, values.end_date@, values.annual_salary@]);
    joined(&out, '|')
}

/// `1` for on, `0` for off.
pub open spec fn flag_text(b: bool) -> Seq<char> {
    if b {
        seq!['1']
    } else {
        seq!['0']
    }
}

pub(crate) fn flag_chars(b: bool) -> (r: Vec<char>)
    ensures
        r@ == flag_text(b),
{
    let mut v: Vec<char> = Vec::new();
    v.push(if b { '1' } else { '0' });
    v
}

/// `OK|RECRUITMENT|{transfer always succeeds}|{instant retry}`.
pub open spec fn recruitment_response(transfer_always_success: bool, recruitment_instant_retry: bool) -> Seq<char> {
    join_pieces(seq!["OK"@, "RECRUITMENT"@, flag_text(transfer_always_success), flag_text(recruitment_instant_retry)], '|')
}

/// The two recruitment settings, framed.
pub fn response_ok_recruitment_settings(transfer_always_success: bool, recruitment_instant_retry: bool) -> (r: String)
    ensures
        r@ == recruitment_response(transfer_always_success, recruitment_instant_retry),
{
    let mut out: Vec<Vec<char>> = Vec::new();
    out.push(chars_of("OK"));
    out.push(chars_of("RECRUITMENT"));
    out.push(flag_chars(transfer_always_success));
    out.push(flag_chars(recruitment_instant_retry));
    assert(views(out@) =~= seq!["OK"@, "RECRUITMENT"@, flag_text(transfer_always_success), flag_text(recruitment_instant_retry)]);
    joined(&out, '|')
}

/// `OK|PONG|{Bridge release}|{protocol version}|{supported game version}`:
/// `OK|PONG|0.2.79|19|0.5.8`.
pub fn response_ok_pong() -> (r: String)
    ensures
        r@ == join_pieces(
            seq!["OK"@, "PONG"@, BRIDGE_RELEASE@, decimal_text(BRIDGE_PROTOCOL_VERSION as nat), SUPPORTED_GAME_VERSION@],
            '|',
        ),
        r@ == "OK|PONG|0.2.79|19|0.5.8"@,
{
    let mut out: Vec<Vec<char>> = Vec::new();
    out.push(chars_of("OK"));
    out.push(chars_of("PONG"));
    out.push(chars_of(BRIDGE_RELEASE));
    out.push(number_chars(BRIDGE_PROTOCOL_VERSION as usize));
    out.push(chars_of(SUPPORTED_GAME_VERSION));
    let ghost ps = seq!["OK"@, "PONG"@, BRIDGE_RELEASE@, decimal_text(BRIDGE_PROTOCOL_VERSION as nat), SUPPORTED_GAME_VERSION@];
    assert(views(out@) =~= ps);
    proof {
        reveal_strlit("OK");
        reveal_strlit("PONG");
        reveal_strlit("0.2.79");
        reveal_strlit("0.5.8");
        reveal_strlit("OK|PONG|0.2.79|19|0.5.8");
        reveal_with_fuel(decimal_text, 3);
        reveal_with_fuel(join_pieces, 6);
        assert(decimal_text(19) =~= seq!['1', '9']);
        assert(ps.drop_last().drop_last().drop_last().drop_last() =~= seq!["OK"@]);
        assert(ps.drop_last().drop_last().drop_last() =~= seq!["OK"@, "PONG"@]);
        assert(ps.drop_last().drop_last() =~= seq!["OK"@, "PONG"@, BRIDGE_RELEASE@]);
        assert(ps.drop_last() =~= seq!["OK"@, "PONG"@, BRIDGE_RELEASE@, decimal_text(19)]);
        assert(join_pieces(ps, '|') =~= "OK|PONG|0.2.79|19|0.5.8"@);
    }
    joined(&out, '|')
}

/// The captured leagues: versions, capture, count and the hex records.
pub open spec fn global_leagues_response(capture_index: usize, records: Seq<String>) -> Seq<char> {
    join_pieces(
        seq![
            "OK"@,
            "GLOBAL_LEAGUES"@,
            BRIDGE_VERSION@,
            TFM2_TARGET_VERSION@,
            decimal_text(capture_index as nat),
            decimal_text(records.len()),
            hex_joined(records),
        ],
        '|',
    )
}

/// `OK|GLOBAL_LEAGUES|{versions}|{capture}|{count}|{records}`.
pub fn response_ok_global_leagues(capture_index: usize, records: &[String]) -> (r: String)
    ensures
        r@ == global_leagues_response(capture_index, records@),
{
    let mut out: Vec<Vec<char>> = Vec::new();
    out.push(chars_of("OK"));
    out.push(chars_of("GLOBAL_LEAGUES"));
    out.push(chars_of(BRIDGE_VERSION));
    out.push(chars_of(TFM2_TARGET_VERSION));
    out.push(number_chars(capture_index));
    out.push(number_chars(records.len()));
    out.push(chars_of(hex_join_records(records).as_str()));
    assert(views(out@) =~= seq![
        "OK"@,
        "GLOBAL_LEAGUES"@,
        BRIDGE_VERSION@,
        TFM2_TARGET_VERSION@,
        decimal_text(capture_index as nat),
        decimal_text(records@.len()),
        hex_joined(records@),
    ]);
    joined(&out, '|')
}

/// One league's competition: versions, capture, league and the hex record.
pub open spec fn global_league_competition_response(capture_index: usize, league_id: usize, json: Seq<char>) -> Seq<char> {
    join_pieces(
        seq![
            "OK"@,
            "GLOBAL_LEAGUE_COMPETITION"@,
            BRIDGE_VERSION@,
            TFM2_TARGET_VERSION@,
            decimal_text(capture_index as nat),
            decimal_text(league_id as nat),
            hex_text(json),
        ],
        '|',
    )
}

/// `OK|GLOBAL_LEAGUE_COMPETITION|{versions}|{capture}|{league}|{hex record}`.
pub fn response_ok_global_league_competition(capture_index: usize, league_id: usize, json: &str) -> (r: String)
    ensures
        r@ == global_league_competition_response(capture_index, league_id, json@),
{
    let mut out: Vec<Vec<char>> = Vec::new();
    out.push(chars_of("OK"));
    out.push(chars_of("GLOBAL_LEAGUE_COMPETITION"));
    out.push(chars_of(BRIDGE_VERSION));
    out.push(chars_of(TFM2_TARGET_VERSION));
    out.push(number_chars(capture_index));
    out.push(number_chars(league_id));
    out.push(hex_chars(json));
    assert(views(out@) =~= seq![
        "OK"@,
        "GLOBAL_LEAGUE_COMPETITION"@,
        BRIDGE_VERSION@,
        TFM2_TARGET_VERSION@,
        decimal_text(capture_index as nat),
        decimal_text(league_id as nat),
        hex_text(json@),
    ]);
    joined(&out, '|')
}

/// A team's matches: versions, capture, the player's team, the team asked for, count and the hex records.
pub open spec fn global_team_records_response(kind: Seq<char>, capture_index: usize, player_team_id: usize, team_id: usize, records: Seq<String>) -> Seq<char> {
    join_pieces(
        seq![
            "OK"@,
            kind,
            BRIDGE_VERSION@,
            TFM2_TARGET_VERSION@,
            decimal_text(capture_index as nat),
            decimal_text(player_team_id as nat),
            decimal_text(team_id as nat),
            decimal_text(records.len()),
            hex_joined(records),
        ],
        '|',
    )
}

/// `OK|{kind}|{versions}|{capture}|{player team}|{team}|{count}|{records}`.
pub fn response_ok_global_team_records(
    kind: &str,
    capture_index: usize,
    player_team_id: usize,
    team_id: usize,
    records: &[String],
) -> (r: String)
    ensures
        r@ == global_team_records_response(kind@, capture_index, player_team_id, team_id, records@),
{
    let mut out: Vec<Vec<char>> = Vec::new();
    out.push(chars_of("OK"));
    out.push(chars_of(kind));
    out.push(chars_of(BRIDGE_VERSION));
    out.push(chars_of(TFM2_TARGET_VERSION));
    out.push(number_chars(capture_index));
    out.push(number_chars(player_team_id));
    out.push(number_chars(team_id));
    out.push(number_chars(records.len()));
    out.push(chars_of(hex_join_records(records).as_str()));
    assert(views(out@) =~= seq![
        "OK"@,
        kind@,
        BRIDGE_VERSION@,
        TFM2_TARGET_VERSION@,
        decimal_text(capture_index as nat),
        decimal_text(player_team_id as nat),
        decimal_text(team_id as nat),
        decimal_text(records@.len()),
        hex_joined(records@),
    ]);
    joined(&out, '|')
}

/// `ERR|{code}`: the answer to a request that failed.
pub fn response_err(error: BridgeError) -> (r: String)
    ensures
        r@ == seq!['E', 'R', 'R', '|'] + error.spec_code()@,
{
    let mut out: Vec<char> = Vec::new();
    out.push('E');
    out.push('R');
    out.push('R');
    out.push('|');
    crate::text::extend_str(&mut out, error.code());
    string_of(&out)
}

} // verus!
