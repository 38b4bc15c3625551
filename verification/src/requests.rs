//! The command lines that the editor sends to the Bridge: one line of
//! `|`-separated fields, the command name first.

use vstd::prelude::*;
use crate::error::BridgeError;
use crate::text::{decimal_text, join_pieces, views, parse_usize_spec, parse_usize_chars, chars_eq_str, is_blank, string_of, trimmed, split_pieces, split_chars, chars_of, trim_chars, lemma_split_pieces_nonempty};
use crate::hex::{hex_decoded, hex_decode};
use crate::wire::{
    usize_field, text_field, usize_at, text_at, EntityNameValue, entity_name_check,
    validate_entity_name, date_check, validate_contract_end_date_text, contract_dates_check,
    validate_contract_dates, StaffContractEndValue, PlayerContractEndValue,
    StaffCommunicationValues, communication_parsed, parse_staff_communication_entries,
};
use crate::commands::{
    replay_id_list, parse_replay_id_list, strategy_values, parse_team_strategy_values,
    optional_role_check, validate_optional_staff_role, option_view,
};
use crate::players::{
    u16_field, u16_at, PlayerPositionValues, PlayerPotentialValue, PlayerCommunicationValue,
    player_communication_check, validate_player_communication, ChampionMasteryValue,
    mastery_view, mastery_entries, mastery_check, read_mastery_entries,
    validate_champion_mastery_values,
};
use crate::teams::{
    TeamMerchandiseWriteValue, merchandise_view, merchandise_fields_check,
    validate_team_merchandise_fields, TeamFansWriteValue, fans_view, fans_check,
    validate_team_fans_write,
};
use crate::edits::{
    StaffStatValues, staff_stat_texts, PlayerStatValues, player_stat_texts, StaffSalaryValue,
    PlayerSalaryValue, PlayerConditionValue, StaffContractValue, staff_contract_view,
    PlayerContractValue, PlayerContractTerms, player_contract_terms, ContractDefaultsEntity,
    contract_terms_at, read_contract_terms,
};

verus! {

broadcast use vstd::seq_lib::group_seq_properties;

/// What a command line asks of the Bridge. Numbers that are read as
/// floating point stay text here.
#[allow(inconsistent_fields)]
pub enum BridgeRequest {
    Ping,
    GetEconomy,
    SetEconomy { money: Option<String>, transfer_budget: Option<String>, salary_budget: Option<String> },
    GetPlayers,
    GetStaffs,
    GetStaff { staff_id: usize },
    GetStaffContractProbe { staff_id: usize },
    SetStaffName { staff_id: usize, values: EntityNameValue },
    SetStaffStats { staff_id: usize, values: StaffStatValues },
    SetStaffSalary { staff_id: usize, values: StaffSalaryValue },
    SetStaffContractEnd { staff_id: usize, values: StaffContractEndValue },
    SetStaffContract { staff_id: usize, values: StaffContractValue },
    SetStaffCommunication { staff_id: usize, values: StaffCommunicationValues },
    GetGlobalLeagues,
    GetGlobalLeagueCompetition { league_id: usize },
    GetGlobalTeamSchedule { team_id: usize },
    GetGlobalTeamHistory { team_id: usize },
    GetTeams,
    GetTeamProbe { team_id: usize },
    GetTeamManagement { team_id: usize },
    SetTeamMerchandise { team_id: usize, values: TeamMerchandiseWriteValue },
    SetTeamFans { team_id: usize, values: TeamFansWriteValue },
    GetTeamFanMomentumProbe { team_id: usize },
    GetTeamStrategyOptions,
    GetTeamReplayStrategies { team_id: usize, replay_ids: Vec<usize> },
    ProbeSwapTeamStrategy { team_id: usize },
    SetTeamStrategy { team_id: usize, raw_strategy: String },
    GetContractDefaults { entity: ContractDefaultsEntity, team_id: usize },
    MoveStaffToTeam { staff_id: usize, team_id: usize, role: Option<String> },
    SetStaffFreeAgent { staff_id: usize },
    MovePlayerToTeam { athlete_id: usize, team_id: usize },
    SetPlayerFreeAgent { athlete_id: usize },
    GetPlayer { athlete_id: usize },
    GetPlayerContractProbe { athlete_id: usize },
    SetPlayerName { athlete_id: usize, values: EntityNameValue },
    SetPlayerCondition { athlete_id: usize, values: PlayerConditionValue },
    GetChampionMasteryProbe { athlete_id: usize },
    SetChampionMastery { athlete_id: usize, values: Vec<ChampionMasteryValue> },
    SetPlayerStats { athlete_id: usize, values: PlayerStatValues },
    SetPlayerPositions { athlete_id: usize, values: PlayerPositionValues },
    SetPlayerPotential { athlete_id: usize, values: PlayerPotentialValue },
    SetPlayerSalary { athlete_id: usize, values: PlayerSalaryValue },
    SetPlayerContractEnd { athlete_id: usize, values: PlayerContractEndValue },
    SetPlayerContract { athlete_id: usize, values: PlayerContractValue },
    SetPlayerCommunication { athlete_id: usize, values: PlayerCommunicationValue },
    SetPlayerCommunicationMax { athlete_id: usize },
    GetRecruitmentSettings,
    SetTransferAlwaysSuccess { enabled: bool },
    SetRecruitmentInstantRetry { enabled: bool },
}

/// A request with its texts as characters.
pub enum RequestView {
    Ping,
    GetEconomy,
    SetEconomy { money: Option<Seq<char>>, transfer_budget: Option<Seq<char>>, salary_budget: Option<Seq<char>> },
    GetPlayers,
    GetStaffs,
    GetStaff { staff_id: usize },
    GetStaffContractProbe { staff_id: usize },
    SetStaffName { staff_id: usize, name: Seq<char> },
    SetStaffStats { staff_id: usize, stats: Seq<Seq<char>> },
    SetStaffSalary { staff_id: usize, annual_salary: Seq<char> },
    SetStaffContractEnd { staff_id: usize, end_date: Seq<char> },
    SetStaffContract { staff_id: usize, contract: (usize, Seq<char>, Seq<char>, Seq<char>) },
    SetStaffCommunication { staff_id: usize, entries: Seq<(usize, u16)> },
    GetGlobalLeagues,
    GetGlobalLeagueCompetition { league_id: usize },
    GetGlobalTeamSchedule { team_id: usize },
    GetGlobalTeamHistory { team_id: usize },
    GetTeams,
    GetTeamProbe { team_id: usize },
    GetTeamManagement { team_id: usize },
    SetTeamMerchandise { team_id: usize, merchandise: (Seq<char>, usize, Seq<char>, Seq<char>) },
    SetTeamFans { team_id: usize, fans: (Seq<char>, Seq<char>, Seq<char>, Seq<char>, Seq<char>) },
    GetTeamFanMomentumProbe { team_id: usize },
    GetTeamStrategyOptions,
    GetTeamReplayStrategies { team_id: usize, replay_ids: Seq<usize> },
    ProbeSwapTeamStrategy { team_id: usize },
    SetTeamStrategy { team_id: usize, raw_strategy: Seq<char> },
    GetContractDefaults { entity: ContractDefaultsEntity, team_id: usize },
    MoveStaffToTeam { staff_id: usize, team_id: usize, role: Option<Seq<char>> },
    SetStaffFreeAgent { staff_id: usize },
    MovePlayerToTeam { athlete_id: usize, team_id: usize },
    SetPlayerFreeAgent { athlete_id: usize },
    GetPlayer { athlete_id: usize },
    GetPlayerContractProbe { athlete_id: usize },
    SetPlayerName { athlete_id: usize, name: Seq<char> },
    SetPlayerCondition { athlete_id: usize, stamina: Seq<char>, condition: Seq<char> },
    GetChampionMasteryProbe { athlete_id: usize },
    SetChampionMastery { athlete_id: usize, mastery: Seq<(Seq<char>, u16)> },
    SetPlayerStats { athlete_id: usize, stats: Seq<Seq<char>> },
    SetPlayerPositions { athlete_id: usize, positions: PlayerPositionValues },
    SetPlayerPotential { athlete_id: usize, potential: PlayerPotentialValue },
    SetPlayerSalary { athlete_id: usize, annual_salary: Seq<char> },
    SetPlayerContractEnd { athlete_id: usize, end_date: Seq<char> },
    SetPlayerContract { athlete_id: usize, terms: PlayerContractTerms },
    SetPlayerCommunication { athlete_id: usize, communication: PlayerCommunicationValue },
    SetPlayerCommunicationMax { athlete_id: usize },
    GetRecruitmentSettings,
    SetTransferAlwaysSuccess { enabled: bool },
    SetRecruitmentInstantRetry { enabled: bool },
}

impl BridgeRequest {
    pub open spec fn view(self) -> RequestView {
        match self {
            BridgeRequest::Ping => RequestView::Ping,
            BridgeRequest::GetEconomy => RequestView::GetEconomy,
            BridgeRequest::SetEconomy { money, transfer_budget, salary_budget } => RequestView::SetEconomy {
                money: option_view(money),
                transfer_budget: option_view(transfer_budget),
                salary_budget: option_view(salary_budget),
            },
            BridgeRequest::GetPlayers => RequestView::GetPlayers,
            BridgeRequest::GetStaffs => RequestView::GetStaffs,
            BridgeRequest::GetStaff { staff_id } => RequestView::GetStaff { staff_id },
            BridgeRequest::GetStaffContractProbe { staff_id } => RequestView::GetStaffContractProbe { staff_id },
            BridgeRequest::SetStaffName { staff_id, values } => RequestView::SetStaffName { staff_id, name: values.name@ },
            BridgeRequest::SetStaffStats { staff_id, values } => RequestView::SetStaffStats {
                staff_id,
                stats: staff_stat_texts(values),
            },
            BridgeRequest::SetStaffSalary { staff_id, values } => RequestView::SetStaffSalary {
                staff_id,
                annual_salary: values.annual_salary@,
            },
            BridgeRequest::SetStaffContractEnd { staff_id, values } => RequestView::SetStaffContractEnd {
                staff_id,
                end_date: values.end_date@,
            },
            BridgeRequest::SetStaffContract { staff_id, values } => RequestView::SetStaffContract {
                staff_id,
                contract: staff_contract_view(values),
            },
            BridgeRequest::SetStaffCommunication { staff_id, values } => RequestView::SetStaffCommunication {
                staff_id,
                entries: values.entries@,
            },
            BridgeRequest::GetGlobalLeagues => RequestView::GetGlobalLeagues,
            BridgeRequest::GetGlobalLeagueCompetition { league_id } => RequestView::GetGlobalLeagueCompetition { league_id },
            BridgeRequest::GetGlobalTeamSchedule { team_id } => RequestView::GetGlobalTeamSchedule { team_id },
            BridgeRequest::GetGlobalTeamHistory { team_id } => RequestView::GetGlobalTeamHistory { team_id },
            BridgeRequest::GetTeams => RequestView::GetTeams,
            BridgeRequest::GetTeamProbe { team_id } => RequestView::GetTeamProbe { team_id },
            BridgeRequest::GetTeamManagement { team_id } => RequestView::GetTeamManagement { team_id },
            BridgeRequest::SetTeamMerchandise { team_id, values } => RequestView::SetTeamMerchandise {
                team_id,
                merchandise: merchandise_view(values),
            },
            BridgeRequest::SetTeamFans { team_id, values } => RequestView::SetTeamFans { team_id, fans: fans_view(values) },
            BridgeRequest::GetTeamFanMomentumProbe { team_id } => RequestView::GetTeamFanMomentumProbe { team_id },
            BridgeRequest::GetTeamStrategyOptions => RequestView::GetTeamStrategyOptions,
            BridgeRequest::GetTeamReplayStrategies { team_id, replay_ids } => RequestView::GetTeamReplayStrategies {
                team_id,
                replay_ids: replay_ids@,
            },
            BridgeRequest::ProbeSwapTeamStrategy { team_id } => RequestView::ProbeSwapTeamStrategy { team_id },
            BridgeRequest::SetTeamStrategy { team_id, raw_strategy } => RequestView::SetTeamStrategy {
                team_id,
                raw_strategy: raw_strategy@,
            },
            BridgeRequest::GetContractDefaults { entity, team_id } => RequestView::GetContractDefaults { entity, team_id },
            BridgeRequest::MoveStaffToTeam { staff_id, team_id, role } => RequestView::MoveStaffToTeam {
                staff_id,
                team_id,
                role: option_view(role),
            },
            BridgeRequest::SetStaffFreeAgent { staff_id } => RequestView::SetStaffFreeAgent { staff_id },
            BridgeRequest::MovePlayerToTeam { athlete_id, team_id } => RequestView::MovePlayerToTeam { athlete_id, team_id },
            BridgeRequest::SetPlayerFreeAgent { athlete_id } => RequestView::SetPlayerFreeAgent { athlete_id },
            BridgeRequest::GetPlayer { athlete_id } => RequestView::GetPlayer { athlete_id },
            BridgeRequest::GetPlayerContractProbe { athlete_id } => RequestView::GetPlayerContractProbe { athlete_id },
            BridgeRequest::SetPlayerName { athlete_id, values } => RequestView::SetPlayerName { athlete_id, name: values.name@ },
            BridgeRequest::SetPlayerCondition { athlete_id, values } => RequestView::SetPlayerCondition {
                athlete_id,
                stamina: values.stamina@,
                condition: values.condition@,
            },
            BridgeRequest::GetChampionMasteryProbe { athlete_id } => RequestView::GetChampionMasteryProbe { athlete_id },
            BridgeRequest::SetChampionMastery { athlete_id, values } => RequestView::SetChampionMastery {
                athlete_id,
                mastery: mastery_view(values@),
            },
            BridgeRequest::SetPlayerStats { athlete_id, values } => RequestView::SetPlayerStats {
                athlete_id,
                stats: player_stat_texts(values),
            },
            BridgeRequest::SetPlayerPositions { athlete_id, values } => RequestView::SetPlayerPositions { athlete_id, positions: values },
            BridgeRequest::SetPlayerPotential { athlete_id, values } => RequestView::SetPlayerPotential { athlete_id, potential: values },
            BridgeRequest::SetPlayerSalary { athlete_id, values } => RequestView::SetPlayerSalary {
                athlete_id,
                annual_salary: values.annual_salary@,
            },
            BridgeRequest::SetPlayerContractEnd { athlete_id, values } => RequestView::SetPlayerContractEnd {
                athlete_id,
                end_date: values.end_date@,
            },
            BridgeRequest::SetPlayerContract { athlete_id, values } => RequestView::SetPlayerContract {
                athlete_id,
                terms: player_contract_terms(values),
            },
            BridgeRequest::SetPlayerCommunication { athlete_id, values } => RequestView::SetPlayerCommunication {
                athlete_id,
                communication: values,
            },
            BridgeRequest::SetPlayerCommunicationMax { athlete_id } => RequestView::SetPlayerCommunicationMax { athlete_id },
            BridgeRequest::GetRecruitmentSettings => RequestView::GetRecruitmentSettings,
            BridgeRequest::SetTransferAlwaysSuccess { enabled } => RequestView::SetTransferAlwaysSuccess { enabled },
            BridgeRequest::SetRecruitmentInstantRetry { enabled } => RequestView::SetRecruitmentInstantRetry { enabled },
        }
    }
}

/// A parse outcome with the request by its view.
pub open spec fn request_result(r: Result<BridgeRequest, BridgeError>) -> Result<RequestView, BridgeError> {
    match r {
        Ok(q) => Ok(q.view()),
        Err(e) => Err(e),
    }
}

/// The outcome of one group of commands: `None` when the command is not
/// one of the group.
pub open spec fn group_result(r: Option<Result<BridgeRequest, BridgeError>>) -> Option<Result<RequestView, BridgeError>> {
    match r {
        Some(x) => Some(request_result(x)),
        None => None,
    }
}

// ---------------------------------------------------------------------------
// Fields
// ---------------------------------------------------------------------------
/// `parts.next()` on the `i`-th piece.
pub open spec fn field_option(ps: Seq<Seq<char>>, i: int) -> Option<Seq<char>> {
    if 0 <= i < ps.len() {
        Some(ps[i])
    } else {
        None
    }
}

/// `parts.next().unwrap_or_default()` on the `i`-th piece.
pub open spec fn field_or_empty(ps: Seq<Seq<char>>, i: int) -> Seq<char> {
    if 0 <= i < ps.len() {
        ps[i]
    } else {
        Seq::empty()
    }
}

fn option_at(ps: &Vec<Vec<char>>, i: usize) -> (r: Option<String>)
    ensures
        option_view(r) == field_option(views(ps@), i as int),
{
    if i < ps.len() {
        Some(string_of(&ps[i]))
    } else {
        None
    }
}

fn text_or_empty(ps: &Vec<Vec<char>>, i: usize) -> (r: String)
    ensures
        r@ == field_or_empty(views(ps@), i as int),
{
    if i < ps.len() {
        string_of(&ps[i])
    } else {
        String::new()
    }
}

/// A request that takes one id after the command.
pub open spec fn id_request(ps: Seq<Seq<char>>, make: spec_fn(usize) -> RequestView) -> Result<RequestView, BridgeError> {
    match usize_field(ps, 1) {
        Ok(id) => Ok(make(id)),
        Err(e) => Err(e),
    }
}

/// `"1"` turns a setting on, `"0"` off; anything else, or nothing, is refused.
pub open spec fn toggle_field(ps: Seq<Seq<char>>) -> Result<bool, BridgeError> {
    if 1 < ps.len() && ps[1] == "1"@ {
        Ok(true)
    } else if 1 < ps.len() && ps[1] == "0"@ {
        Ok(false)
    } else {
        Err(BridgeError::InvalidBoolean)
    }
}

fn toggle_at(ps: &Vec<Vec<char>>) -> (r: Result<bool, BridgeError>)
    ensures
        r == toggle_field(views(ps@)),
{
    if 1 < ps.len() && chars_eq_str(&ps[1], "1") {
        Ok(true)
    } else if 1 < ps.len() && chars_eq_str(&ps[1], "0") {
        Ok(false)
    } else {
        Err(BridgeError::InvalidBoolean)
    }
}

// ---------------------------------------------------------------------------
// Commands that concern the game as a whole
// ---------------------------------------------------------------------------
/// `GET_CONTRACT_DEFAULTS|PLAYER|team` or `GET_CONTRACT_DEFAULTS|STAFF|team`.
pub open spec fn contract_defaults_request(ps: Seq<Seq<char>>) -> Result<RequestView, BridgeError> {
    match text_field(ps, 1) {
        Err(e) => Err(e),
        Ok(kind) => {
            if kind == "PLAYER"@ || kind == "STAFF"@ {
                match usize_field(ps, 2) {
                    Err(e) => Err(e),
                    Ok(team_id) => Ok(
                        RequestView::GetContractDefaults {
                            entity: if kind == "PLAYER"@ {
                                ContractDefaultsEntity::Player
                            } else {
                                ContractDefaultsEntity::Staff
                            },
                            team_id,
                        },
                    ),
                }
            } else {
                Err(BridgeError::InvalidContractEntity)
            }
        },
    }
}

fn contract_defaults_command(ps: &Vec<Vec<char>>) -> (r: Result<BridgeRequest, BridgeError>)
    ensures
        request_result(r) == contract_defaults_request(views(ps@)),
{
    if ps.len() <= 1 {
        return Err(BridgeError::MissingValue);
    }
    let entity = if chars_eq_str(&ps[1], "PLAYER") {
        ContractDefaultsEntity::Player
    } else if chars_eq_str(&ps[1], "STAFF") {
        ContractDefaultsEntity::Staff
    } else {
        return Err(BridgeError::InvalidContractEntity);
    };
    let team_id = usize_at(ps, 2)?;
    Ok(BridgeRequest::GetContractDefaults { entity, team_id })
}

/// The commands about the game as a whole.
pub open spec fn general_request(ps: Seq<Seq<char>>) -> Option<Result<RequestView, BridgeError>> {
    let cmd = ps[0];
    if cmd == "PING"@ {
        Some(Ok(RequestView::Ping))
    } else if cmd == "GET_ECONOMY"@ {
        Some(Ok(RequestView::GetEconomy))
    } else if cmd == "SET_ECONOMY"@ {
        Some(
            Ok(
                RequestView::SetEconomy {
                    money: field_option(ps, 1),
                    transfer_budget: field_option(ps, 2),
                    salary_budget: field_option(ps, 3),
                },
            ),
        )
    } else if cmd == "GET_PLAYERS"@ {
        Some(Ok(RequestView::GetPlayers))
    } else if cmd == "GET_STAFFS"@ {
        Some(Ok(RequestView::GetStaffs))
    } else if cmd == "GET_LEAGUES"@ {
        Some(Ok(RequestView::GetGlobalLeagues))
    } else if cmd == "GET_LEAGUE_COMPETITION"@ {
        Some(id_request(ps, |id: usize| RequestView::GetGlobalLeagueCompetition { league_id: id }))
    } else if cmd == "GET_TEAM_SCHEDULE"@ {
        Some(id_request(ps, |id: usize| RequestView::GetGlobalTeamSchedule { team_id: id }))
    } else if cmd == "GET_TEAM_HISTORY"@ {
        Some(id_request(ps, |id: usize| RequestView::GetGlobalTeamHistory { team_id: id }))
    } else if cmd == "GET_TEAMS"@ {
        Some(Ok(RequestView::GetTeams))
    } else if cmd == "GET_TEAM_STRATEGY_OPTIONS"@ {
        Some(Ok(RequestView::GetTeamStrategyOptions))
    } else if cmd == "GET_CONTRACT_DEFAULTS"@ {
        Some(contract_defaults_request(ps))
    } else if cmd == "GET_RECRUITMENT_SETTINGS"@ {
        Some(Ok(RequestView::GetRecruitmentSettings))
    } else if cmd == "SET_TRANSFER_ALWAYS_SUCCESS"@ {
        Some(
            match toggle_field(ps) {
                Ok(enabled) => Ok(RequestView::SetTransferAlwaysSuccess { enabled }),
                Err(e) => Err(e),
            },
        )
    } else if cmd == "SET_RECRUITMENT_INSTANT_RETRY"@ {
        Some(
            match toggle_field(ps) {
                Ok(enabled) => Ok(RequestView::SetRecruitmentInstantRetry { enabled }),
                Err(e) => Err(e),
            },
        )
    } else {
        None
    }
}

fn general_command(ps: &Vec<Vec<char>>) -> (r: Option<Result<BridgeRequest, BridgeError>>)
    requires
        ps.len() >= 1,
    ensures
        group_result(r) == general_request(views(ps@)),
{
    let cmd = &ps[0];
    if chars_eq_str(cmd, "PING") {
        Some(Ok(BridgeRequest::Ping))
    } else if chars_eq_str(cmd, "GET_ECONOMY") {
        Some(Ok(BridgeRequest::GetEconomy))
    } else if chars_eq_str(cmd, "SET_ECONOMY") {
        Some(
            Ok(
                BridgeRequest::SetEconomy {
                    money: option_at(ps, 1),
                    transfer_budget: option_at(ps, 2),
                    salary_budget: option_at(ps, 3),
                },
            ),
        )
    } else if chars_eq_str(cmd, "GET_PLAYERS") {
        Some(Ok(BridgeRequest::GetPlayers))
    } else if chars_eq_str(cmd, "GET_STAFFS") {
        Some(Ok(BridgeRequest::GetStaffs))
    } else if chars_eq_str(cmd, "GET_LEAGUES") {
        Some(Ok(BridgeRequest::GetGlobalLeagues))
    } else if chars_eq_str(cmd, "GET_LEAGUE_COMPETITION") {
        Some(
            match usize_at(ps, 1) {
                Ok(id) => Ok(BridgeRequest::GetGlobalLeagueCompetition { league_id: id }),
                Err(e) => Err(e),
            },
        )
    } else if chars_eq_str(cmd, "GET_TEAM_SCHEDULE") {
        Some(
            match usize_at(ps, 1) {
                Ok(id) => Ok(BridgeRequest::GetGlobalTeamSchedule { team_id: id }),
                Err(e) => Err(e),
            },
        )
    } else if chars_eq_str(cmd, "GET_TEAM_HISTORY") {
        Some(
            match usize_at(ps, 1) {
                Ok(id) => Ok(BridgeRequest::GetGlobalTeamHistory { team_id: id }),
                Err(e) => Err(e),
            },
        )
    } else if chars_eq_str(cmd, "GET_TEAMS") {
        Some(Ok(BridgeRequest::GetTeams))
    } else if chars_eq_str(cmd, "GET_TEAM_STRATEGY_OPTIONS") {
        Some(Ok(BridgeRequest::GetTeamStrategyOptions))
    } else if chars_eq_str(cmd, "GET_CONTRACT_DEFAULTS") {
        Some(contract_defaults_command(ps))
    } else if chars_eq_str(cmd, "GET_RECRUITMENT_SETTINGS") {
        Some(Ok(BridgeRequest::GetRecruitmentSettings))
    } else if chars_eq_str(cmd, "SET_TRANSFER_ALWAYS_SUCCESS") {
        Some(
            match toggle_at(ps) {
                Ok(enabled) => Ok(BridgeRequest::SetTransferAlwaysSuccess { enabled }),
                Err(e) => Err(e),
            },
        )
    } else if chars_eq_str(cmd, "SET_RECRUITMENT_INSTANT_RETRY") {
        Some(
            match toggle_at(ps) {
                Ok(enabled) => Ok(BridgeRequest::SetRecruitmentInstantRetry { enabled }),
                Err(e) => Err(e),
            },
        )
    } else {
        None
    }
}

// ---------------------------------------------------------------------------
// Staff commands
// ---------------------------------------------------------------------------
/// An id and a hex-encoded name: the name decoded, then checked.
pub open spec fn named_field(ps: Seq<Seq<char>>) -> Result<(usize, Seq<char>), BridgeError> {
    match usize_field(ps, 1) {
        Err(e) => Err(e),
        Ok(id) => match text_field(ps, 2) {
            Err(e) => Err(e),
            Ok(encoded) => match hex_decoded(encoded) {
                Err(e) => Err(e),
                Ok(raw) => match entity_name_check(raw) {
                    Err(e) => Err(e),
                    Ok(name) => Ok((id, name)),
                },
            },
        },
    }
}

fn read_named(ps: &Vec<Vec<char>>) -> (r: Result<(usize, EntityNameValue), BridgeError>)
    ensures
        match r {
            Ok((id, v)) => named_field(views(ps@)) == Ok::<(usize, Seq<char>), BridgeError>((id, v.name@)),
            Err(e) => named_field(views(ps@)) == Err::<(usize, Seq<char>), BridgeError>(e),
        },
{
    let id = usize_at(ps, 1)?;
    let encoded = text_at(ps, 2)?;
    let raw = hex_decode(encoded.as_str())?;
    let name = validate_entity_name(raw.as_str())?;
    Ok((id, EntityNameValue { name }))
}

/// `count` fields from index `from` on, each empty where the line ends.
pub open spec fn fields_or_empty(ps: Seq<Seq<char>>, from: int, count: nat) -> Seq<Seq<char>> {
    Seq::new(count, |i: int| field_or_empty(ps, from + i))
}

fn read_staff_stats(ps: &Vec<Vec<char>>) -> (r: StaffStatValues)
    ensures
        staff_stat_texts(r) == fields_or_empty(views(ps@), 2, 10),
{
    let r = StaffStatValues {
        banpick: text_or_empty(ps, 2),
        strategy: text_or_empty(ps, 3),
        negotiation: text_or_empty(ps, 4),
        judge_ability: text_or_empty(ps, 5),
        judge_potential: text_or_empty(ps, 6),
        feedback: text_or_empty(ps, 7),
        power_analysis: text_or_empty(ps, 8),
        control_coaching: text_or_empty(ps, 9),
        judgment_coaching: text_or_empty(ps, 10),
        mental_coaching: text_or_empty(ps, 11),
    };
    assert(staff_stat_texts(r) =~= fields_or_empty(views(ps@), 2, 10));
    r
}

/// An id and an end date, which must be a date.
pub open spec fn end_date_field(ps: Seq<Seq<char>>) -> Result<(usize, Seq<char>), BridgeError> {
    match usize_field(ps, 1) {
        Err(e) => Err(e),
        Ok(id) => match date_check(field_or_empty(ps, 2)) {
            Err(e) => Err(e),
            Ok(_) => Ok((id, field_or_empty(ps, 2))),
        },
    }
}

fn read_end_date(ps: &Vec<Vec<char>>) -> (r: Result<(usize, String), BridgeError>)
    ensures
        match r {
            Ok((id, d)) => end_date_field(views(ps@)) == Ok::<(usize, Seq<char>), BridgeError>((id, d@)),
            Err(e) => end_date_field(views(ps@)) == Err::<(usize, Seq<char>), BridgeError>(e),
        },
{
    let id = usize_at(ps, 1)?;
    let end_date = text_or_empty(ps, 2);
    validate_contract_end_date_text(end_date.as_str())?;
    Ok((id, end_date))
}

/// `SET_STAFF_CONTRACT|staff|team|start|end|salary`: the dates checked.
pub open spec fn staff_contract_request(ps: Seq<Seq<char>>) -> Result<RequestView, BridgeError> {
    match (usize_field(ps, 1), usize_field(ps, 2), text_field(ps, 3), text_field(ps, 4), text_field(ps, 5)) {
        (Err(e), _, _, _, _) => Err(e),
        (_, Err(e), _, _, _) => Err(e),
        (_, _, Err(e), _, _) => Err(e),
        (_, _, _, Err(e), _) => Err(e),
        (_, _, _, _, Err(e)) => Err(e),
        (Ok(staff_id), Ok(team_id), Ok(start), Ok(end), Ok(salary)) => match contract_dates_check(start, end) {
            Err(e) => Err(e),
            Ok(_) => Ok(RequestView::SetStaffContract { staff_id, contract: (team_id, start, end, salary) }),
        },
    }
}

fn read_staff_contract(ps: &Vec<Vec<char>>) -> (r: Result<BridgeRequest, BridgeError>)
    ensures
        request_result(r) == staff_contract_request(views(ps@)),
{
    let staff_id = usize_at(ps, 1)?;
    let team_id = usize_at(ps, 2)?;
    let start_date = text_at(ps, 3)?;
    let end_date = text_at(ps, 4)?;
    let annual_salary = text_at(ps, 5)?;
    validate_contract_dates(start_date.as_str(), end_date.as_str())?;
    Ok(
        BridgeRequest::SetStaffContract {
            staff_id,
            values: StaffContractValue { team_id, start_date, end_date, annual_salary },
        },
    )
}

/// The role of a move, when a field holds more than white space.
pub open spec fn role_field(ps: Seq<Seq<char>>) -> Option<Seq<char>> {
    if 3 < ps.len() && trimmed(ps[3]).len() > 0 {
        Some(ps[3])
    } else {
        None
    }
}

/// `MOVE_STAFF_TO_TEAM|staff|team[|role]`.
pub open spec fn move_staff_request(ps: Seq<Seq<char>>) -> Result<RequestView, BridgeError> {
    match usize_field(ps, 1) {
        Err(e) => Err(e),
        Ok(staff_id) => match usize_field(ps, 2) {
            Err(e) => Err(e),
            Ok(team_id) => match optional_role_check(role_field(ps)) {
                Err(e) => Err(e),
                Ok(_) => Ok(RequestView::MoveStaffToTeam { staff_id, team_id, role: role_field(ps) }),
            },
        },
    }
}

fn read_move_staff(ps: &Vec<Vec<char>>) -> (r: Result<BridgeRequest, BridgeError>)
    ensures
        request_result(r) == move_staff_request(views(ps@)),
{
    let staff_id = usize_at(ps, 1)?;
    let team_id = usize_at(ps, 2)?;
    let role = if 3 < ps.len() && !is_blank(&ps[3]) {
        Some(string_of(&ps[3]))
    } else {
        None
    };
    match &role {
        Some(x) => validate_optional_staff_role(Some(x.as_str()))?,
        None => validate_optional_staff_role(None)?,
    }
    Ok(BridgeRequest::MoveStaffToTeam { staff_id, team_id, role })
}

/// The commands about one staff member.
pub open spec fn staff_request(ps: Seq<Seq<char>>) -> Option<Result<RequestView, BridgeError>> {
    let cmd = ps[0];
    if cmd == "GET_STAFF"@ {
        Some(id_request(ps, |id: usize| RequestView::GetStaff { staff_id: id }))
    } else if cmd == "GET_STAFF_CONTRACT_PROBE"@ {
        Some(id_request(ps, |id: usize| RequestView::GetStaffContractProbe { staff_id: id }))
    } else if cmd == "SET_STAFF_NAME"@ {
        Some(
            match named_field(ps) {
                Ok((id, name)) => Ok(RequestView::SetStaffName { staff_id: id, name }),
                Err(e) => Err(e),
            },
        )
    } else if cmd == "SET_STAFF_STATS"@ {
        Some(id_request(ps, |id: usize| RequestView::SetStaffStats { staff_id: id, stats: fields_or_empty(ps, 2, 10) }))
    } else if cmd == "SET_STAFF_SALARY"@ {
        Some(id_request(ps, |id: usize| RequestView::SetStaffSalary { staff_id: id, annual_salary: field_or_empty(ps, 2) }))
    } else if cmd == "SET_STAFF_CONTRACT_END"@ {
        Some(
            match end_date_field(ps) {
                Ok((id, end_date)) => Ok(RequestView::SetStaffContractEnd { staff_id: id, end_date }),
                Err(e) => Err(e),
            },
        )
    } else if cmd == "SET_STAFF_CONTRACT"@ {
        Some(staff_contract_request(ps))
    } else if cmd == "SET_STAFF_COMMUNICATION"@ {
        Some(
            match usize_field(ps, 1) {
                Err(e) => Err(e),
                Ok(id) => match communication_parsed(field_or_empty(ps, 2)) {
                    Err(e) => Err(e),
                    Ok(entries) => Ok(RequestView::SetStaffCommunication { staff_id: id, entries }),
                },
            },
        )
    } else if cmd == "MOVE_STAFF_TO_TEAM"@ {
        Some(move_staff_request(ps))
    } else if cmd == "SET_STAFF_FREE_AGENT"@ {
        Some(id_request(ps, |id: usize| RequestView::SetStaffFreeAgent { staff_id: id }))
    } else {
        None
    }
}

fn staff_command(ps: &Vec<Vec<char>>) -> (r: Option<Result<BridgeRequest, BridgeError>>)
    requires
        ps.len() >= 1,
    ensures
        group_result(r) == staff_request(views(ps@)),
{
    let cmd = &ps[0];
    if chars_eq_str(cmd, "GET_STAFF") {
        Some(
            match usize_at(ps, 1) {
                Ok(id) => Ok(BridgeRequest::GetStaff { staff_id: id }),
                Err(e) => Err(e),
            },
        )
    } else if chars_eq_str(cmd, "GET_STAFF_CONTRACT_PROBE") {
        Some(
            match usize_at(ps, 1) {
                Ok(id) => Ok(BridgeRequest::GetStaffContractProbe { staff_id: id }),
                Err(e) => Err(e),
            },
        )
    } else if chars_eq_str(cmd, "SET_STAFF_NAME") {
        Some(
            match read_named(ps) {
                Ok((id, values)) => Ok(BridgeRequest::SetStaffName { staff_id: id, values }),
                Err(e) => Err(e),
            },
        )
    } else if chars_eq_str(cmd, "SET_STAFF_STATS") {
        Some(
            match usize_at(ps, 1) {
                Ok(id) => Ok(BridgeRequest::SetStaffStats { staff_id: id, values: read_staff_stats(ps) }),
                Err(e) => Err(e),
            },
        )
    } else if chars_eq_str(cmd, "SET_STAFF_SALARY") {
        Some(
            match usize_at(ps, 1) {
                Ok(id) => Ok(
                    BridgeRequest::SetStaffSalary {
                        staff_id: id,
                        values: StaffSalaryValue { annual_salary: text_or_empty(ps, 2) },
                    },
                ),
                Err(e) => Err(e),
            },
        )
    } else if chars_eq_str(cmd, "SET_STAFF_CONTRACT_END") {
        Some(
            match read_end_date(ps) {
                Ok((id, end_date)) => Ok(
                    BridgeRequest::SetStaffContractEnd { staff_id: id, values: StaffContractEndValue { end_date } },
                ),
                Err(e) => Err(e),
            },
        )
    } else if chars_eq_str(cmd, "SET_STAFF_CONTRACT") {
        Some(read_staff_contract(ps))
    } else if chars_eq_str(cmd, "SET_STAFF_COMMUNICATION") {
        Some(
            match usize_at(ps, 1) {
                Err(e) => Err(e),
                Ok(id) => {
                    let raw = text_or_empty(ps, 2);
                    match parse_staff_communication_entries(raw.as_str()) {
                        Err(e) => Err(e),
                        Ok(values) => Ok(BridgeRequest::SetStaffCommunication { staff_id: id, values }),
                    }
                },
            },
        )
    } else if chars_eq_str(cmd, "MOVE_STAFF_TO_TEAM") {
        Some(read_move_staff(ps))
    } else if chars_eq_str(cmd, "SET_STAFF_FREE_AGENT") {
        Some(
            match usize_at(ps, 1) {
                Ok(id) => Ok(BridgeRequest::SetStaffFreeAgent { staff_id: id }),
                Err(e) => Err(e),
            },
        )
    } else {
        None
    }
}

// ---------------------------------------------------------------------------
// Team commands
// ---------------------------------------------------------------------------
/// A field that must be present and is hex-decoded.
pub open spec fn hex_field(ps: Seq<Seq<char>>, i: int) -> Result<Seq<char>, BridgeError> {
    match text_field(ps, i) {
        Err(e) => Err(e),
        Ok(t) => hex_decoded(t),
    }
}

fn hex_at(ps: &Vec<Vec<char>>, i: usize) -> (r: Result<String, BridgeError>)
    ensures
        match r {
            Ok(s) => hex_field(views(ps@), i as int) == Ok::<Seq<char>, BridgeError>(s@),
            Err(e) => hex_field(views(ps@), i as int) == Err::<Seq<char>, BridgeError>(e),
        },
{
    let t = text_at(ps, i)?;
    hex_decode(t.as_str())
}

/// `SET_TEAM_MERCHANDISE|team|hex type|athlete|stock|price`: the type and
/// the stock checked.
pub open spec fn merchandise_request(ps: Seq<Seq<char>>) -> Result<RequestView, BridgeError> {
    match (usize_field(ps, 1), hex_field(ps, 2), usize_field(ps, 3), text_field(ps, 4), text_field(ps, 5)) {
        (Err(e), _, _, _, _) => Err(e),
        (_, Err(e), _, _, _) => Err(e),
        (_, _, Err(e), _, _) => Err(e),
        (_, _, _, Err(e), _) => Err(e),
        (_, _, _, _, Err(e)) => Err(e),
        (Ok(team_id), Ok(product), Ok(athlete), Ok(stock), Ok(price)) => match merchandise_fields_check(
            (product, athlete, stock, price),
        ) {
            Err(e) => Err(e),
            Ok(_) => Ok(RequestView::SetTeamMerchandise { team_id, merchandise: (product, athlete, stock, price) }),
        },
    }
}

fn read_merchandise(ps: &Vec<Vec<char>>) -> (r: Result<BridgeRequest, BridgeError>)
    ensures
        request_result(r) == merchandise_request(views(ps@)),
{
    let team_id = usize_at(ps, 1)?;
    let product_type = hex_at(ps, 2)?;
    let athlete_id = usize_at(ps, 3)?;
    let stock = text_at(ps, 4)?;
    let sell_price = text_at(ps, 5)?;
    let values = TeamMerchandiseWriteValue { product_type, athlete_id, stock, sell_price };
    validate_team_merchandise_fields(&values)?;
    Ok(BridgeRequest::SetTeamMerchandise { team_id, values })
}

/// `SET_TEAM_FANS|team|popularity|count|hex expectation|hex satisfaction|momentum`.
pub open spec fn fans_request(ps: Seq<Seq<char>>) -> Result<RequestView, BridgeError> {
    match (usize_field(ps, 1), text_field(ps, 2), text_field(ps, 3), hex_field(ps, 4), hex_field(ps, 5), text_field(ps, 6)) {
        (Err(e), _, _, _, _, _) => Err(e),
        (_, Err(e), _, _, _, _) => Err(e),
        (_, _, Err(e), _, _, _) => Err(e),
        (_, _, _, Err(e), _, _) => Err(e),
        (_, _, _, _, Err(e), _) => Err(e),
        (_, _, _, _, _, Err(e)) => Err(e),
        (Ok(team_id), Ok(p), Ok(c), Ok(x), Ok(s), Ok(m)) => match fans_check((p, c, x, s, m)) {
            Err(e) => Err(e),
            Ok(_) => Ok(RequestView::SetTeamFans { team_id, fans: (p, c, x, s, m) }),
        },
    }
}

fn read_fans(ps: &Vec<Vec<char>>) -> (r: Result<BridgeRequest, BridgeError>)
    ensures
        request_result(r) == fans_request(views(ps@)),
{
    let team_id = usize_at(ps, 1)?;
    let popularity = text_at(ps, 2)?;
    let fan_count = text_at(ps, 3)?;
    let fan_expectation = hex_at(ps, 4)?;
    let fan_satisfaction = hex_at(ps, 5)?;
    let fan_momentum = text_at(ps, 6)?;
    let values = TeamFansWriteValue { popularity, fan_count, fan_expectation, fan_satisfaction, fan_momentum };
    validate_team_fans_write(&values)?;
    Ok(BridgeRequest::SetTeamFans { team_id, values })
}

/// `GET_TEAM_REPLAY_STRATEGIES|team|ids`.
pub open spec fn replay_request(ps: Seq<Seq<char>>) -> Result<RequestView, BridgeError> {
    match usize_field(ps, 1) {
        Err(e) => Err(e),
        Ok(team_id) => match text_field(ps, 2) {
            Err(e) => Err(e),
            Ok(raw) => match replay_id_list(raw) {
                Err(e) => Err(e),
                Ok(replay_ids) => Ok(RequestView::GetTeamReplayStrategies { team_id, replay_ids }),
            },
        },
    }
}

fn read_replays(ps: &Vec<Vec<char>>) -> (r: Result<BridgeRequest, BridgeError>)
    ensures
        request_result(r) == replay_request(views(ps@)),
{
    let team_id = usize_at(ps, 1)?;
    let raw = text_at(ps, 2)?;
    let replay_ids = parse_replay_id_list(raw.as_str())?;
    Ok(BridgeRequest::GetTeamReplayStrategies { team_id, replay_ids })
}

/// `SET_TEAM_STRATEGY|team|hex strategy`: the decoded strategy must read.
pub open spec fn strategy_request(ps: Seq<Seq<char>>) -> Result<RequestView, BridgeError> {
    match usize_field(ps, 1) {
        Err(e) => Err(e),
        Ok(team_id) => match hex_field(ps, 2) {
            Err(e) => Err(e),
            Ok(raw) => match strategy_values(raw) {
                Err(e) => Err(e),
                Ok(_) => Ok(RequestView::SetTeamStrategy { team_id, raw_strategy: raw }),
            },
        },
    }
}

fn read_strategy(ps: &Vec<Vec<char>>) -> (r: Result<BridgeRequest, BridgeError>)
    ensures
        request_result(r) == strategy_request(views(ps@)),
{
    let team_id = usize_at(ps, 1)?;
    let raw_strategy = hex_at(ps, 2)?;
    parse_team_strategy_values(raw_strategy.as_str())?;
    Ok(BridgeRequest::SetTeamStrategy { team_id, raw_strategy })
}

/// The commands about one team.
pub open spec fn team_request(ps: Seq<Seq<char>>) -> Option<Result<RequestView, BridgeError>> {
    let cmd = ps[0];
    if cmd == "GET_TEAM_PROBE"@ {
        Some(id_request(ps, |id: usize| RequestView::GetTeamProbe { team_id: id }))
    } else if cmd == "GET_TEAM_MANAGEMENT"@ {
        Some(id_request(ps, |id: usize| RequestView::GetTeamManagement { team_id: id }))
    } else if cmd == "SET_TEAM_MERCHANDISE"@ {
        Some(merchandise_request(ps))
    } else if cmd == "SET_TEAM_FANS"@ {
        Some(fans_request(ps))
    } else if cmd == "GET_TEAM_FAN_MOMENTUM_PROBE"@ {
        Some(id_request(ps, |id: usize| RequestView::GetTeamFanMomentumProbe { team_id: id }))
    } else if cmd == "GET_TEAM_REPLAY_STRATEGIES"@ {
        Some(replay_request(ps))
    } else if cmd == "PROBE_SWAP_TEAM_STRATEGY"@ {
        Some(id_request(ps, |id: usize| RequestView::ProbeSwapTeamStrategy { team_id: id }))
    } else if cmd == "SET_TEAM_STRATEGY"@ {
        Some(strategy_request(ps))
    } else {
        None
    }
}

fn team_command(ps: &Vec<Vec<char>>) -> (r: Option<Result<BridgeRequest, BridgeError>>)
    requires
        ps.len() >= 1,
    ensures
        group_result(r) == team_request(views(ps@)),
{
    let cmd = &ps[0];
    if chars_eq_str(cmd, "GET_TEAM_PROBE") {
        Some(
            match usize_at(ps, 1) {
                Ok(id) => Ok(BridgeRequest::GetTeamProbe { team_id: id }),
                Err(e) => Err(e),
            },
        )
    } else if chars_eq_str(cmd, "GET_TEAM_MANAGEMENT") {
        Some(
            match usize_at(ps, 1) {
                Ok(id) => Ok(BridgeRequest::GetTeamManagement { team_id: id }),
                Err(e) => Err(e),
            },
        )
    } else if chars_eq_str(cmd, "SET_TEAM_MERCHANDISE") {
        Some(read_merchandise(ps))
    } else if chars_eq_str(cmd, "SET_TEAM_FANS") {
        Some(read_fans(ps))
    } else if chars_eq_str(cmd, "GET_TEAM_FAN_MOMENTUM_PROBE") {
        Some(
            match usize_at(ps, 1) {
                Ok(id) => Ok(BridgeRequest::GetTeamFanMomentumProbe { team_id: id }),
                Err(e) => Err(e),
            },
        )
    } else if chars_eq_str(cmd, "GET_TEAM_REPLAY_STRATEGIES") {
        Some(read_replays(ps))
    } else if chars_eq_str(cmd, "PROBE_SWAP_TEAM_STRATEGY") {
        Some(
            match usize_at(ps, 1) {
                Ok(id) => Ok(BridgeRequest::ProbeSwapTeamStrategy { team_id: id }),
                Err(e) => Err(e),
            },
        )
    } else if chars_eq_str(cmd, "SET_TEAM_STRATEGY") {
        Some(read_strategy(ps))
    } else {
        None
    }
}

// ---------------------------------------------------------------------------
// Player commands
// ---------------------------------------------------------------------------
/// `SET_CHAMPION_MASTERY|athlete|champion:mastery;...`.
pub open spec fn mastery_request(ps: Seq<Seq<char>>) -> Result<RequestView, BridgeError> {
    match usize_field(ps, 1) {
        Err(e) => Err(e),
        Ok(athlete_id) => match mastery_entries(split_pieces(field_or_empty(ps, 2), ';')) {
            Err(e) => Err(e),
            Ok(mastery) => match mastery_check(mastery) {
                Err(e) => Err(e),
                Ok(_) => Ok(RequestView::SetChampionMastery { athlete_id, mastery }),
            },
        },
    }
}

fn read_mastery(ps: &Vec<Vec<char>>) -> (r: Result<BridgeRequest, BridgeError>)
    ensures
        request_result(r) == mastery_request(views(ps@)),
{
    let athlete_id = usize_at(ps, 1)?;
    let raw = if 2 < ps.len() {
        ps[2].clone()
    } else {
        Vec::new()
    };
    assert(raw@ == field_or_empty(views(ps@), 2));
    let values = read_mastery_entries(&raw)?;
    validate_champion_mastery_values(values.as_slice())?;
    Ok(BridgeRequest::SetChampionMastery { athlete_id, values })
}

fn read_player_stats(ps: &Vec<Vec<char>>) -> (r: PlayerStatValues)
    ensures
        player_stat_texts(r) == fields_or_empty(views(ps@), 2, 12),
{
    let r = PlayerStatValues {
        last_hit: text_or_empty(ps, 2),
        skill_avoid: text_or_empty(ps, 3),
        skill_hit: text_or_empty(ps, 4),
        control_speed: text_or_empty(ps, 5),
        positioning: text_or_empty(ps, 6),
        judgement: text_or_empty(ps, 7),
        mental: text_or_empty(ps, 8),
        concentration: text_or_empty(ps, 9),
        order: text_or_empty(ps, 10),
        roaming: text_or_empty(ps, 11),
        aggressive: text_or_empty(ps, 12),
        ego: text_or_empty(ps, 13),
    };
    assert(player_stat_texts(r) =~= fields_or_empty(views(ps@), 2, 12));
    r
}

/// `SET_PLAYER_POSITIONS|athlete|top|jungle|mid|bottom|support`, each a `u16`.
pub open spec fn positions_request(ps: Seq<Seq<char>>) -> Result<RequestView, BridgeError> {
    let bad = BridgeError::InvalidPosition;
    match (usize_field(ps, 1), u16_field(ps, 2, bad), u16_field(ps, 3, bad), u16_field(ps, 4, bad), u16_field(ps, 5, bad), u16_field(ps, 6, bad)) {
        (Err(e), _, _, _, _, _) => Err(e),
        (_, Err(e), _, _, _, _) => Err(e),
        (_, _, Err(e), _, _, _) => Err(e),
        (_, _, _, Err(e), _, _) => Err(e),
        (_, _, _, _, Err(e), _) => Err(e),
        (_, _, _, _, _, Err(e)) => Err(e),
        (Ok(athlete_id), Ok(top), Ok(jungle), Ok(mid), Ok(bottom), Ok(support)) => Ok(
            RequestView::SetPlayerPositions {
                athlete_id,
                positions: PlayerPositionValues { top, jungle, mid, bottom, support },
            },
        ),
    }
}

fn read_positions(ps: &Vec<Vec<char>>) -> (r: Result<BridgeRequest, BridgeError>)
    ensures
        request_result(r) == positions_request(views(ps@)),
{
    let athlete_id = usize_at(ps, 1)?;
    let top = u16_at(ps, 2, BridgeError::InvalidPosition)?;
    let jungle = u16_at(ps, 3, BridgeError::InvalidPosition)?;
    let mid = u16_at(ps, 4, BridgeError::InvalidPosition)?;
    let bottom = u16_at(ps, 5, BridgeError::InvalidPosition)?;
    let support = u16_at(ps, 6, BridgeError::InvalidPosition)?;
    Ok(BridgeRequest::SetPlayerPositions { athlete_id, values: PlayerPositionValues { top, jungle, mid, bottom, support } })
}

/// `SET_PLAYER_COMMUNICATION|athlete|region|level`.
pub open spec fn player_communication_request(ps: Seq<Seq<char>>) -> Result<RequestView, BridgeError> {
    match (usize_field(ps, 1), usize_field(ps, 2), text_field(ps, 3)) {
        (Err(e), _, _) => Err(e),
        (_, Err(e), _) => Err(e),
        (_, _, Err(e)) => Err(e),
        (Ok(athlete_id), Ok(region_id), Ok(level)) => match parse_usize_spec(level) {
            None => Err(BridgeError::InvalidCommunication),
            Some(level) => {
                let values = PlayerCommunicationValue { region_id, level };
                match player_communication_check(values) {
                    Err(e) => Err(e),
                    Ok(_) => Ok(RequestView::SetPlayerCommunication { athlete_id, communication: values }),
                }
            },
        },
    }
}

fn read_player_communication(ps: &Vec<Vec<char>>) -> (r: Result<BridgeRequest, BridgeError>)
    ensures
        request_result(r) == player_communication_request(views(ps@)),
{
    let athlete_id = usize_at(ps, 1)?;
    let region_id = usize_at(ps, 2)?;
    if ps.len() <= 3 {
        return Err(BridgeError::MissingValue);
    }
    let level = match parse_usize_chars(&ps[3]) {
        Some(n) => n,
        None => return Err(BridgeError::InvalidCommunication),
    };
    let values = PlayerCommunicationValue { region_id, level };
    validate_player_communication(values)?;
    Ok(BridgeRequest::SetPlayerCommunication { athlete_id, values })
}

/// `SET_PLAYER_CONTRACT|athlete|terms...`: the dates checked.
pub open spec fn player_contract_request(ps: Seq<Seq<char>>) -> Result<RequestView, BridgeError> {
    match usize_field(ps, 1) {
        Err(e) => Err(e),
        Ok(athlete_id) => match contract_terms_at(ps, 2) {
            Err(e) => Err(e),
            Ok(terms) => match contract_dates_check(terms.start_date, terms.end_date) {
                Err(e) => Err(e),
                Ok(_) => Ok(RequestView::SetPlayerContract { athlete_id, terms }),
            },
        },
    }
}

fn read_player_contract(ps: &Vec<Vec<char>>) -> (r: Result<BridgeRequest, BridgeError>)
    ensures
        request_result(r) == player_contract_request(views(ps@)),
{
    let athlete_id = usize_at(ps, 1)?;
    let values = read_contract_terms(ps, 2)?;
    validate_contract_dates(values.start_date.as_str(), values.end_date.as_str())?;
    Ok(BridgeRequest::SetPlayerContract { athlete_id, values })
}

/// The commands that read or move one player.
pub open spec fn player_request(ps: Seq<Seq<char>>) -> Option<Result<RequestView, BridgeError>> {
    let cmd = ps[0];
    if cmd == "MOVE_PLAYER_TO_TEAM"@ {
        Some(
            match (usize_field(ps, 1), usize_field(ps, 2)) {
                (Err(e), _) => Err(e),
                (_, Err(e)) => Err(e),
                (Ok(athlete_id), Ok(team_id)) => Ok(RequestView::MovePlayerToTeam { athlete_id, team_id }),
            },
        )
    } else if cmd == "SET_PLAYER_FREE_AGENT"@ {
        Some(id_request(ps, |id: usize| RequestView::SetPlayerFreeAgent { athlete_id: id }))
    } else if cmd == "GET_PLAYER"@ {
        Some(id_request(ps, |id: usize| RequestView::GetPlayer { athlete_id: id }))
    } else if cmd == "GET_PLAYER_CONTRACT_PROBE"@ {
        Some(id_request(ps, |id: usize| RequestView::GetPlayerContractProbe { athlete_id: id }))
    } else if cmd == "SET_PLAYER_NAME"@ {
        Some(
            match named_field(ps) {
                Ok((id, name)) => Ok(RequestView::SetPlayerName { athlete_id: id, name }),
                Err(e) => Err(e),
            },
        )
    } else if cmd == "SET_PLAYER_CONDITION"@ {
        Some(
            match (usize_field(ps, 1), text_field(ps, 2), text_field(ps, 3)) {
                (Err(e), _, _) => Err(e),
                (_, Err(e), _) => Err(e),
                (_, _, Err(e)) => Err(e),
                (Ok(athlete_id), Ok(stamina), Ok(condition)) => Ok(
                    RequestView::SetPlayerCondition { athlete_id, stamina, condition },
                ),
            },
        )
    } else if cmd == "GET_CHAMPION_MASTERY_PROBE"@ {
        Some(id_request(ps, |id: usize| RequestView::GetChampionMasteryProbe { athlete_id: id }))
    } else if cmd == "SET_CHAMPION_MASTERY"@ {
        Some(mastery_request(ps))
    } else if cmd == "SET_PLAYER_COMMUNICATION_MAX"@ {
        Some(id_request(ps, |id: usize| RequestView::SetPlayerCommunicationMax { athlete_id: id }))
    } else {
        None
    }
}

fn player_command(ps: &Vec<Vec<char>>) -> (r: Option<Result<BridgeRequest, BridgeError>>)
    requires
        ps.len() >= 1,
    ensures
        group_result(r) == player_request(views(ps@)),
{
    let cmd = &ps[0];
    if chars_eq_str(cmd, "MOVE_PLAYER_TO_TEAM") {
        Some(
            match usize_at(ps, 1) {
                Err(e) => Err(e),
                Ok(athlete_id) => match usize_at(ps, 2) {
                    Err(e) => Err(e),
                    Ok(team_id) => Ok(BridgeRequest::MovePlayerToTeam { athlete_id, team_id }),
                },
            },
        )
    } else if chars_eq_str(cmd, "SET_PLAYER_FREE_AGENT") {
        Some(
            match usize_at(ps, 1) {
                Ok(id) => Ok(BridgeRequest::SetPlayerFreeAgent { athlete_id: id }),
                Err(e) => Err(e),
            },
        )
    } else if chars_eq_str(cmd, "GET_PLAYER") {
        Some(
            match usize_at(ps, 1) {
                Ok(id) => Ok(BridgeRequest::GetPlayer { athlete_id: id }),
                Err(e) => Err(e),
            },
        )
    } else if chars_eq_str(cmd, "GET_PLAYER_CONTRACT_PROBE") {
        Some(
            match usize_at(ps, 1) {
                Ok(id) => Ok(BridgeRequest::GetPlayerContractProbe { athlete_id: id }),
                Err(e) => Err(e),
            },
        )
    } else if chars_eq_str(cmd, "SET_PLAYER_NAME") {
        Some(
            match read_named(ps) {
                Ok((id, values)) => Ok(BridgeRequest::SetPlayerName { athlete_id: id, values }),
                Err(e) => Err(e),
            },
        )
    } else if chars_eq_str(cmd, "SET_PLAYER_CONDITION") {
        Some(
            match usize_at(ps, 1) {
                Err(e) => Err(e),
                Ok(athlete_id) => match text_at(ps, 2) {
                    Err(e) => Err(e),
                    Ok(stamina) => match text_at(ps, 3) {
                        Err(e) => Err(e),
                        Ok(condition) => Ok(
                            BridgeRequest::SetPlayerCondition {
                                athlete_id,
                                values: PlayerConditionValue { stamina, condition },
                            },
                        ),
                    },
                },
            },
        )
    } else if chars_eq_str(cmd, "GET_CHAMPION_MASTERY_PROBE") {
        Some(
            match usize_at(ps, 1) {
                Ok(id) => Ok(BridgeRequest::GetChampionMasteryProbe { athlete_id: id }),
                Err(e) => Err(e),
            },
        )
    } else if chars_eq_str(cmd, "SET_CHAMPION_MASTERY") {
        Some(read_mastery(ps))
    } else if chars_eq_str(cmd, "SET_PLAYER_COMMUNICATION_MAX") {
        Some(
            match usize_at(ps, 1) {
                Ok(id) => Ok(BridgeRequest::SetPlayerCommunicationMax { athlete_id: id }),
                Err(e) => Err(e),
            },
        )
    } else {
        None
    }
}

/// The commands that change a player's numbers or contract.
pub open spec fn player_edit_request(ps: Seq<Seq<char>>) -> Option<Result<RequestView, BridgeError>> {
    let cmd = ps[0];
    if cmd == "SET_PLAYER_STATS"@ {
        Some(id_request(ps, |id: usize| RequestView::SetPlayerStats { athlete_id: id, stats: fields_or_empty(ps, 2, 12) }))
    } else if cmd == "SET_PLAYER_POSITIONS"@ {
        Some(positions_request(ps))
    } else if cmd == "SET_PLAYER_POTENTIAL"@ {
        Some(
            match (usize_field(ps, 1), u16_field(ps, 2, BridgeError::InvalidPotential)) {
                (Err(e), _) => Err(e),
                (_, Err(e)) => Err(e),
                (Ok(athlete_id), Ok(potential)) => Ok(
                    RequestView::SetPlayerPotential { athlete_id, potential: PlayerPotentialValue { potential } },
                ),
            },
        )
    } else if cmd == "SET_PLAYER_SALARY"@ {
        Some(id_request(ps, |id: usize| RequestView::SetPlayerSalary { athlete_id: id, annual_salary: field_or_empty(ps, 2) }))
    } else if cmd == "SET_PLAYER_CONTRACT_END"@ {
        Some(
            match end_date_field(ps) {
                Ok((id, end_date)) => Ok(RequestView::SetPlayerContractEnd { athlete_id: id, end_date }),
                Err(e) => Err(e),
            },
        )
    } else if cmd == "SET_PLAYER_CONTRACT"@ {
        Some(player_contract_request(ps))
    } else if cmd == "SET_PLAYER_COMMUNICATION"@ {
        Some(player_communication_request(ps))
    } else {
        None
    }
}

fn player_edit_command(ps: &Vec<Vec<char>>) -> (r: Option<Result<BridgeRequest, BridgeError>>)
    requires
        ps.len() >= 1,
    ensures
        group_result(r) == player_edit_request(views(ps@)),
{
    let cmd = &ps[0];
    if chars_eq_str(cmd, "SET_PLAYER_STATS") {
        Some(
            match usize_at(ps, 1) {
                Ok(id) => Ok(BridgeRequest::SetPlayerStats { athlete_id: id, values: read_player_stats(ps) }),
                Err(e) => Err(e),
            },
        )
    } else if chars_eq_str(cmd, "SET_PLAYER_POSITIONS") {
        Some(read_positions(ps))
    } else if chars_eq_str(cmd, "SET_PLAYER_POTENTIAL") {
        Some(
            match usize_at(ps, 1) {
                Err(e) => Err(e),
                Ok(athlete_id) => match u16_at(ps, 2, BridgeError::InvalidPotential) {
                    Err(e) => Err(e),
                    Ok(potential) => Ok(
                        BridgeRequest::SetPlayerPotential { athlete_id, values: PlayerPotentialValue { potential } },
                    ),
                },
            },
        )
    } else if chars_eq_str(cmd, "SET_PLAYER_SALARY") {
        Some(
            match usize_at(ps, 1) {
                Ok(id) => Ok(
                    BridgeRequest::SetPlayerSalary {
                        athlete_id: id,
                        values: PlayerSalaryValue { annual_salary: text_or_empty(ps, 2) },
                    },
                ),
                Err(e) => Err(e),
            },
        )
    } else if chars_eq_str(cmd, "SET_PLAYER_CONTRACT_END") {
        Some(
            match read_end_date(ps) {
                Ok((id, end_date)) => Ok(
                    BridgeRequest::SetPlayerContractEnd { athlete_id: id, values: PlayerContractEndValue { end_date } },
                ),
                Err(e) => Err(e),
            },
        )
    } else if chars_eq_str(cmd, "SET_PLAYER_CONTRACT") {
        Some(read_player_contract(ps))
    } else if chars_eq_str(cmd, "SET_PLAYER_COMMUNICATION") {
        Some(read_player_communication(ps))
    } else {
        None
    }
}

// ---------------------------------------------------------------------------
// Command lines
// ---------------------------------------------------------------------------
/// The fields of a command line: the line trimmed, then split at `|`.
pub open spec fn request_fields(line: Seq<char>) -> Seq<Seq<char>> {
    split_pieces(trimmed(line), '|')
}

/// What a command line asks for. The first field names the command; a
/// name that no command has is refused with `UNKNOWN_COMMAND`.
pub open spec fn client_request(line: Seq<char>) -> Result<RequestView, BridgeError> {
    client_request_of(request_fields(line))
}

/// What the fields of a command line ask for.
#[verifier::opaque]
pub open spec fn client_request_of(ps: Seq<Seq<char>>) -> Result<RequestView, BridgeError> {
    match general_request(ps) {
        Some(r) => r,
        None => match staff_request(ps) {
            Some(r) => r,
            None => match team_request(ps) {
                Some(r) => r,
                None => match player_request(ps) {
                    Some(r) => r,
                    None => match player_edit_request(ps) {
                        Some(r) => r,
                        None => Err(BridgeError::UnknownCommand),
                    },
                },
            },
        },
    }
}

/// A command line made of a command name and a decimal id reads as the two
/// fields.
proof fn lemma_id_line_fields(cmd: Seq<char>, n: usize)
    requires
        cmd.len() > 0,
        !crate::text::is_white_space(cmd[0]),
        !cmd.contains('|'),
    ensures
        request_fields(cmd.push('|') + decimal_text(n as nat)) == seq![cmd, decimal_text(n as nat)],
{
    let d = decimal_text(n as nat);
    let line = cmd.push('|') + d;
    crate::wire::lemma_id_text(n);
    crate::text::lemma_decimal_text(n as nat);
    assert(crate::text::is_digit(d[d.len() - 1]));
    assert(line[0] == cmd[0]);
    assert(line[line.len() - 1] == d[d.len() - 1]);
    crate::text::lemma_trimmed_unchanged(line);
    let ps = seq![cmd, d];
    assert(ps.drop_last() =~= seq![cmd]);
    assert(join_pieces(seq![cmd], '|') == cmd);
    assert(ps.last() == d);
    assert(join_pieces(ps, '|') == join_pieces(ps.drop_last(), '|').push('|') + ps.last());
    assert(join_pieces(ps, '|') =~= line);
    crate::text::lemma_split_join(ps, '|');
}

/// `GET_TEAM_SCHEDULE|n` asks for every indexed match of team `n` and
/// `GET_TEAM_HISTORY|n` for its history: two different requests, each for
/// the team the line names.
pub proof fn lemma_team_match_requests(n: usize)
    ensures
        client_request("GET_TEAM_SCHEDULE|"@ + decimal_text(n as nat)) == Ok::<RequestView, BridgeError>(
            RequestView::GetGlobalTeamSchedule { team_id: n },
        ),
        client_request("GET_TEAM_HISTORY|"@ + decimal_text(n as nat)) == Ok::<RequestView, BridgeError>(
            RequestView::GetGlobalTeamHistory { team_id: n },
        ),
        client_request("GET_TEAM_SCHEDULE|"@ + decimal_text(n as nat)) != client_request(
            "GET_TEAM_HISTORY|"@ + decimal_text(n as nat),
        ),
{
    lemma_line_get_team_schedule(n);
    lemma_line_get_team_history(n);
}

proof fn lemma_general_request_none(ps: Seq<Seq<char>>)
    requires
        ps[0] != "PING"@,
        ps[0] != "GET_ECONOMY"@,
        ps[0] != "SET_ECONOMY"@,
        ps[0] != "GET_PLAYERS"@,
        ps[0] != "GET_STAFFS"@,
        ps[0] != "GET_LEAGUES"@,
        ps[0] != "GET_LEAGUE_COMPETITION"@,
        ps[0] != "GET_TEAM_SCHEDULE"@,
        ps[0] != "GET_TEAM_HISTORY"@,
        ps[0] != "GET_TEAMS"@,
        ps[0] != "GET_TEAM_STRATEGY_OPTIONS"@,
        ps[0] != "GET_CONTRACT_DEFAULTS"@,
        ps[0] != "GET_RECRUITMENT_SETTINGS"@,
        ps[0] != "SET_TRANSFER_ALWAYS_SUCCESS"@,
        ps[0] != "SET_RECRUITMENT_INSTANT_RETRY"@,
    ensures
        general_request(ps) is None,
{
}

proof fn lemma_staff_request_none(ps: Seq<Seq<char>>)
    requires
        ps[0] != "GET_STAFF"@,
        ps[0] != "GET_STAFF_CONTRACT_PROBE"@,
        ps[0] != "SET_STAFF_NAME"@,
        ps[0] != "SET_STAFF_STATS"@,
        ps[0] != "SET_STAFF_SALARY"@,
        ps[0] != "SET_STAFF_CONTRACT_END"@,
        ps[0] != "SET_STAFF_CONTRACT"@,
        ps[0] != "SET_STAFF_COMMUNICATION"@,
        ps[0] != "MOVE_STAFF_TO_TEAM"@,
        ps[0] != "SET_STAFF_FREE_AGENT"@,
    ensures
        staff_request(ps) is None,
{
}

proof fn lemma_team_request_none(ps: Seq<Seq<char>>)
    requires
        ps[0] != "GET_TEAM_PROBE"@,
        ps[0] != "GET_TEAM_MANAGEMENT"@,
        ps[0] != "SET_TEAM_MERCHANDISE"@,
        ps[0] != "SET_TEAM_FANS"@,
        ps[0] != "GET_TEAM_FAN_MOMENTUM_PROBE"@,
        ps[0] != "GET_TEAM_REPLAY_STRATEGIES"@,
        ps[0] != "PROBE_SWAP_TEAM_STRATEGY"@,
        ps[0] != "SET_TEAM_STRATEGY"@,
    ensures
        team_request(ps) is None,
{
}

proof fn lemma_player_request_none(ps: Seq<Seq<char>>)
    requires
        ps[0] != "MOVE_PLAYER_TO_TEAM"@,
        ps[0] != "SET_PLAYER_FREE_AGENT"@,
        ps[0] != "GET_PLAYER"@,
        ps[0] != "GET_PLAYER_CONTRACT_PROBE"@,
        ps[0] != "SET_PLAYER_NAME"@,
        ps[0] != "SET_PLAYER_CONDITION"@,
        ps[0] != "GET_CHAMPION_MASTERY_PROBE"@,
        ps[0] != "SET_CHAMPION_MASTERY"@,
        ps[0] != "SET_PLAYER_COMMUNICATION_MAX"@,
    ensures
        player_request(ps) is None,
{
}

proof fn lemma_player_edit_request_none(ps: Seq<Seq<char>>)
    requires
        ps[0] != "SET_PLAYER_STATS"@,
        ps[0] != "SET_PLAYER_POSITIONS"@,
        ps[0] != "SET_PLAYER_POTENTIAL"@,
        ps[0] != "SET_PLAYER_SALARY"@,
        ps[0] != "SET_PLAYER_CONTRACT_END"@,
        ps[0] != "SET_PLAYER_CONTRACT"@,
        ps[0] != "SET_PLAYER_COMMUNICATION"@,
    ensures
        player_edit_request(ps) is None,
{
}

proof fn lemma_line_ping()
    ensures
        client_request("PING"@) == Ok::<RequestView, BridgeError>(RequestView::Ping),
{
    let cmd = "PING"@;
    assert(cmd.len() > 0 && !crate::text::is_white_space(cmd[0]) && !crate::text::is_white_space(cmd[cmd.len() - 1]) && !cmd.contains('|')) by {
        reveal_strlit("PING");
    }
    crate::text::lemma_trimmed_unchanged(cmd);
    crate::text::lemma_split_pieces_single(cmd, '|');
    let ps = seq![cmd];
    assert(request_fields(cmd) == ps);
    lemma_ping_dispatch(ps);
}

proof fn lemma_ping_dispatch(ps: Seq<Seq<char>>)
    requires
        ps.len() == 1,
        ps[0] == "PING"@,
    ensures
        client_request_of(ps) == Ok::<RequestView, BridgeError>(RequestView::Ping),
{
    reveal(client_request_of);
    reveal_strlit("PING");
}

proof fn lemma_line_get_economy()
    ensures
        client_request("GET_ECONOMY"@) == Ok::<RequestView, BridgeError>(RequestView::GetEconomy),
{
    let cmd = "GET_ECONOMY"@;
    assert(cmd.len() > 0 && !crate::text::is_white_space(cmd[0]) && !crate::text::is_white_space(cmd[cmd.len() - 1]) && !cmd.contains('|')) by {
        reveal_strlit("GET_ECONOMY");
    }
    crate::text::lemma_trimmed_unchanged(cmd);
    crate::text::lemma_split_pieces_single(cmd, '|');
    let ps = seq![cmd];
    assert(request_fields(cmd) == ps);
    lemma_get_economy_dispatch(ps);
}

proof fn lemma_get_economy_dispatch(ps: Seq<Seq<char>>)
    requires
        ps.len() == 1,
        ps[0] == "GET_ECONOMY"@,
    ensures
        client_request_of(ps) == Ok::<RequestView, BridgeError>(RequestView::GetEconomy),
{
    reveal(client_request_of);
    reveal_strlit("PING");
    reveal_strlit("GET_ECONOMY");
    assert("PING"@.len() == 4 && "GET_ECONOMY"@.len() == 11);
}

proof fn lemma_line_get_players()
    ensures
        client_request("GET_PLAYERS"@) == Ok::<RequestView, BridgeError>(RequestView::GetPlayers),
{
    let cmd = "GET_PLAYERS"@;
    assert(cmd.len() > 0 && !crate::text::is_white_space(cmd[0]) && !crate::text::is_white_space(cmd[cmd.len() - 1]) && !cmd.contains('|')) by {
        reveal_strlit("GET_PLAYERS");
    }
    crate::text::lemma_trimmed_unchanged(cmd);
    crate::text::lemma_split_pieces_single(cmd, '|');
    let ps = seq![cmd];
    assert(request_fields(cmd) == ps);
    lemma_get_players_dispatch(ps);
}

proof fn lemma_get_players_dispatch(ps: Seq<Seq<char>>)
    requires
        ps.len() == 1,
        ps[0] == "GET_PLAYERS"@,
    ensures
        client_request_of(ps) == Ok::<RequestView, BridgeError>(RequestView::GetPlayers),
{
    reveal(client_request_of);
    reveal_strlit("PING");
    reveal_strlit("GET_ECONOMY");
    reveal_strlit("SET_ECONOMY");
    reveal_strlit("GET_PLAYERS");
    assert("PING"@.len() == 4 && "GET_PLAYERS"@.len() == 11);
    assert("GET_ECONOMY"@[4] != "GET_PLAYERS"@[4]);
    assert("SET_ECONOMY"@[0] != "GET_PLAYERS"@[0]);
}

proof fn lemma_line_get_staffs()
    ensures
        client_request("GET_STAFFS"@) == Ok::<RequestView, BridgeError>(RequestView::GetStaffs),
{
    let cmd = "GET_STAFFS"@;
    assert(cmd.len() > 0 && !crate::text::is_white_space(cmd[0]) && !crate::text::is_white_space(cmd[cmd.len() - 1]) && !cmd.contains('|')) by {
        reveal_strlit("GET_STAFFS");
    }
    crate::text::lemma_trimmed_unchanged(cmd);
    crate::text::lemma_split_pieces_single(cmd, '|');
    let ps = seq![cmd];
    assert(request_fields(cmd) == ps);
    lemma_get_staffs_dispatch(ps);
}

proof fn lemma_get_staffs_dispatch(ps: Seq<Seq<char>>)
    requires
        ps.len() == 1,
        ps[0] == "GET_STAFFS"@,
    ensures
        client_request_of(ps) == Ok::<RequestView, BridgeError>(RequestView::GetStaffs),
{
    reveal(client_request_of);
    reveal_strlit("PING");
    reveal_strlit("GET_ECONOMY");
    reveal_strlit("SET_ECONOMY");
    reveal_strlit("GET_PLAYERS");
    reveal_strlit("GET_STAFFS");
    assert("PING"@.len() == 4 && "GET_STAFFS"@.len() == 10);
    assert("GET_ECONOMY"@.len() == 11 && "GET_STAFFS"@.len() == 10);
    assert("SET_ECONOMY"@.len() == 11 && "GET_STAFFS"@.len() == 10);
    assert("GET_PLAYERS"@.len() == 11 && "GET_STAFFS"@.len() == 10);
}

proof fn lemma_line_get_leagues()
    ensures
        client_request("GET_LEAGUES"@) == Ok::<RequestView, BridgeError>(RequestView::GetGlobalLeagues),
{
    let cmd = "GET_LEAGUES"@;
    assert(cmd.len() > 0 && !crate::text::is_white_space(cmd[0]) && !crate::text::is_white_space(cmd[cmd.len() - 1]) && !cmd.contains('|')) by {
        reveal_strlit("GET_LEAGUES");
    }
    crate::text::lemma_trimmed_unchanged(cmd);
    crate::text::lemma_split_pieces_single(cmd, '|');
    let ps = seq![cmd];
    assert(request_fields(cmd) == ps);
    lemma_get_leagues_dispatch(ps);
}

proof fn lemma_get_leagues_dispatch(ps: Seq<Seq<char>>)
    requires
        ps.len() == 1,
        ps[0] == "GET_LEAGUES"@,
    ensures
        client_request_of(ps) == Ok::<RequestView, BridgeError>(RequestView::GetGlobalLeagues),
{
    reveal(client_request_of);
    reveal_strlit("PING");
    reveal_strlit("GET_ECONOMY");
    reveal_strlit("SET_ECONOMY");
    reveal_strlit("GET_PLAYERS");
    reveal_strlit("GET_STAFFS");
    reveal_strlit("GET_LEAGUES");
    assert("PING"@.len() == 4 && "GET_LEAGUES"@.len() == 11);
    assert("GET_ECONOMY"@[4] != "GET_LEAGUES"@[4]);
    assert("SET_ECONOMY"@[0] != "GET_LEAGUES"@[0]);
    assert("GET_PLAYERS"@[4] != "GET_LEAGUES"@[4]);
    assert("GET_STAFFS"@.len() == 10 && "GET_LEAGUES"@.len() == 11);
}

proof fn lemma_line_get_teams()
    ensures
        client_request("GET_TEAMS"@) == Ok::<RequestView, BridgeError>(RequestView::GetTeams),
{
    let cmd = "GET_TEAMS"@;
    assert(cmd.len() > 0 && !crate::text::is_white_space(cmd[0]) && !crate::text::is_white_space(cmd[cmd.len() - 1]) && !cmd.contains('|')) by {
        reveal_strlit("GET_TEAMS");
    }
    crate::text::lemma_trimmed_unchanged(cmd);
    crate::text::lemma_split_pieces_single(cmd, '|');
    let ps = seq![cmd];
    assert(request_fields(cmd) == ps);
    lemma_get_teams_dispatch(ps);
}

proof fn lemma_get_teams_dispatch(ps: Seq<Seq<char>>)
    requires
        ps.len() == 1,
        ps[0] == "GET_TEAMS"@,
    ensures
        client_request_of(ps) == Ok::<RequestView, BridgeError>(RequestView::GetTeams),
{
    reveal(client_request_of);
    reveal_strlit("PING");
    reveal_strlit("GET_ECONOMY");
    reveal_strlit("SET_ECONOMY");
    reveal_strlit("GET_PLAYERS");
    reveal_strlit("GET_STAFFS");
    reveal_strlit("GET_LEAGUES");
    reveal_strlit("GET_LEAGUE_COMPETITION");
    reveal_strlit("GET_TEAM_SCHEDULE");
    reveal_strlit("GET_TEAM_HISTORY");
    reveal_strlit("GET_TEAMS");
    assert("PING"@.len() == 4 && "GET_TEAMS"@.len() == 9);
    assert("GET_ECONOMY"@.len() == 11 && "GET_TEAMS"@.len() == 9);
    assert("SET_ECONOMY"@.len() == 11 && "GET_TEAMS"@.len() == 9);
    assert("GET_PLAYERS"@.len() == 11 && "GET_TEAMS"@.len() == 9);
    assert("GET_STAFFS"@.len() == 10 && "GET_TEAMS"@.len() == 9);
    assert("GET_LEAGUES"@.len() == 11 && "GET_TEAMS"@.len() == 9);
    assert("GET_LEAGUE_COMPETITION"@.len() == 22 && "GET_TEAMS"@.len() == 9);
    assert("GET_TEAM_SCHEDULE"@.len() == 17 && "GET_TEAMS"@.len() == 9);
    assert("GET_TEAM_HISTORY"@.len() == 16 && "GET_TEAMS"@.len() == 9);
}

proof fn lemma_line_get_team_strategy_options()
    ensures
        client_request("GET_TEAM_STRATEGY_OPTIONS"@) == Ok::<RequestView, BridgeError>(RequestView::GetTeamStrategyOptions),
{
    let cmd = "GET_TEAM_STRATEGY_OPTIONS"@;
    assert(cmd.len() > 0 && !crate::text::is_white_space(cmd[0]) && !crate::text::is_white_space(cmd[cmd.len() - 1]) && !cmd.contains('|')) by {
        reveal_strlit("GET_TEAM_STRATEGY_OPTIONS");
    }
    crate::text::lemma_trimmed_unchanged(cmd);
    crate::text::lemma_split_pieces_single(cmd, '|');
    let ps = seq![cmd];
    assert(request_fields(cmd) == ps);
    lemma_get_team_strategy_options_dispatch(ps);
}

proof fn lemma_get_team_strategy_options_dispatch(ps: Seq<Seq<char>>)
    requires
        ps.len() == 1,
        ps[0] == "GET_TEAM_STRATEGY_OPTIONS"@,
    ensures
        client_request_of(ps) == Ok::<RequestView, BridgeError>(RequestView::GetTeamStrategyOptions),
{
    reveal(client_request_of);
    reveal_strlit("PING");
    reveal_strlit("GET_ECONOMY");
    reveal_strlit("SET_ECONOMY");
    reveal_strlit("GET_PLAYERS");
    reveal_strlit("GET_STAFFS");
    reveal_strlit("GET_LEAGUES");
    reveal_strlit("GET_LEAGUE_COMPETITION");
    reveal_strlit("GET_TEAM_SCHEDULE");
    reveal_strlit("GET_TEAM_HISTORY");
    reveal_strlit("GET_TEAMS");
    reveal_strlit("GET_TEAM_STRATEGY_OPTIONS");
    assert("PING"@.len() == 4 && "GET_TEAM_STRATEGY_OPTIONS"@.len() == 25);
    assert("GET_ECONOMY"@.len() == 11 && "GET_TEAM_STRATEGY_OPTIONS"@.len() == 25);
    assert("SET_ECONOMY"@.len() == 11 && "GET_TEAM_STRATEGY_OPTIONS"@.len() == 25);
    assert("GET_PLAYERS"@.len() == 11 && "GET_TEAM_STRATEGY_OPTIONS"@.len() == 25);
    assert("GET_STAFFS"@.len() == 10 && "GET_TEAM_STRATEGY_OPTIONS"@.len() == 25);
    assert("GET_LEAGUES"@.len() == 11 && "GET_TEAM_STRATEGY_OPTIONS"@.len() == 25);
    assert("GET_LEAGUE_COMPETITION"@.len() == 22 && "GET_TEAM_STRATEGY_OPTIONS"@.len() == 25);
    assert("GET_TEAM_SCHEDULE"@.len() == 17 && "GET_TEAM_STRATEGY_OPTIONS"@.len() == 25);
    assert("GET_TEAM_HISTORY"@.len() == 16 && "GET_TEAM_STRATEGY_OPTIONS"@.len() == 25);
    assert("GET_TEAMS"@.len() == 9 && "GET_TEAM_STRATEGY_OPTIONS"@.len() == 25);
}

proof fn lemma_line_get_recruitment_settings()
    ensures
        client_request("GET_RECRUITMENT_SETTINGS"@) == Ok::<RequestView, BridgeError>(RequestView::GetRecruitmentSettings),
{
    let cmd = "GET_RECRUITMENT_SETTINGS"@;
    assert(cmd.len() > 0 && !crate::text::is_white_space(cmd[0]) && !crate::text::is_white_space(cmd[cmd.len() - 1]) && !cmd.contains('|')) by {
        reveal_strlit("GET_RECRUITMENT_SETTINGS");
    }
    crate::text::lemma_trimmed_unchanged(cmd);
    crate::text::lemma_split_pieces_single(cmd, '|');
    let ps = seq![cmd];
    assert(request_fields(cmd) == ps);
    lemma_get_recruitment_settings_dispatch(ps);
}

proof fn lemma_get_recruitment_settings_dispatch(ps: Seq<Seq<char>>)
    requires
        ps.len() == 1,
        ps[0] == "GET_RECRUITMENT_SETTINGS"@,
    ensures
        client_request_of(ps) == Ok::<RequestView, BridgeError>(RequestView::GetRecruitmentSettings),
{
    reveal(client_request_of);
    reveal_strlit("PING");
    reveal_strlit("GET_ECONOMY");
    reveal_strlit("SET_ECONOMY");
    reveal_strlit("GET_PLAYERS");
    reveal_strlit("GET_STAFFS");
    reveal_strlit("GET_LEAGUES");
    reveal_strlit("GET_LEAGUE_COMPETITION");
    reveal_strlit("GET_TEAM_SCHEDULE");
    reveal_strlit("GET_TEAM_HISTORY");
    reveal_strlit("GET_TEAMS");
    reveal_strlit("GET_TEAM_STRATEGY_OPTIONS");
    reveal_strlit("GET_CONTRACT_DEFAULTS");
    reveal_strlit("GET_RECRUITMENT_SETTINGS");
    assert("PING"@.len() == 4 && "GET_RECRUITMENT_SETTINGS"@.len() == 24);
    assert("GET_ECONOMY"@.len() == 11 && "GET_RECRUITMENT_SETTINGS"@.len() == 24);
    assert("SET_ECONOMY"@.len() == 11 && "GET_RECRUITMENT_SETTINGS"@.len() == 24);
    assert("GET_PLAYERS"@.len() == 11 && "GET_RECRUITMENT_SETTINGS"@.len() == 24);
    assert("GET_STAFFS"@.len() == 10 && "GET_RECRUITMENT_SETTINGS"@.len() == 24);
    assert("GET_LEAGUES"@.len() == 11 && "GET_RECRUITMENT_SETTINGS"@.len() == 24);
    assert("GET_LEAGUE_COMPETITION"@.len() == 22 && "GET_RECRUITMENT_SETTINGS"@.len() == 24);
    assert("GET_TEAM_SCHEDULE"@.len() == 17 && "GET_RECRUITMENT_SETTINGS"@.len() == 24);
    assert("GET_TEAM_HISTORY"@.len() == 16 && "GET_RECRUITMENT_SETTINGS"@.len() == 24);
    assert("GET_TEAMS"@.len() == 9 && "GET_RECRUITMENT_SETTINGS"@.len() == 24);
    assert("GET_TEAM_STRATEGY_OPTIONS"@.len() == 25 && "GET_RECRUITMENT_SETTINGS"@.len() == 24);
    assert("GET_CONTRACT_DEFAULTS"@.len() == 21 && "GET_RECRUITMENT_SETTINGS"@.len() == 24);
}

proof fn lemma_line_get_league_competition(n: usize)
    ensures
        client_request("GET_LEAGUE_COMPETITION|"@ + decimal_text(n as nat)) == Ok::<RequestView, BridgeError>(RequestView::GetGlobalLeagueCompetition { league_id: n }),
{
    let cmd = "GET_LEAGUE_COMPETITION"@;
    assert("GET_LEAGUE_COMPETITION|"@ =~= cmd.push('|')) by {
        reveal_strlit("GET_LEAGUE_COMPETITION|");
        reveal_strlit("GET_LEAGUE_COMPETITION");
    }
    assert(cmd.len() > 0 && !crate::text::is_white_space(cmd[0]) && !cmd.contains('|')) by {
        reveal_strlit("GET_LEAGUE_COMPETITION");
    }
    lemma_id_line_fields(cmd, n);
    crate::wire::lemma_id_text(n);
    let ps = seq![cmd, decimal_text(n as nat)];
    assert(request_fields("GET_LEAGUE_COMPETITION|"@ + decimal_text(n as nat)) == ps);
    lemma_get_league_competition_dispatch(ps);
}

proof fn lemma_get_league_competition_dispatch(ps: Seq<Seq<char>>)
    requires
        ps.len() == 2,
        ps[0] == "GET_LEAGUE_COMPETITION"@,
    ensures
        client_request_of(ps) == match usize_field(ps, 1) {
            Ok(id) => Ok::<RequestView, BridgeError>(RequestView::GetGlobalLeagueCompetition { league_id: id }),
            Err(e) => Err(e),
        },
{
    reveal(client_request_of);
    reveal_strlit("PING");
    reveal_strlit("GET_ECONOMY");
    reveal_strlit("SET_ECONOMY");
    reveal_strlit("GET_PLAYERS");
    reveal_strlit("GET_STAFFS");
    reveal_strlit("GET_LEAGUES");
    reveal_strlit("GET_LEAGUE_COMPETITION");
    assert("PING"@.len() == 4 && "GET_LEAGUE_COMPETITION"@.len() == 22);
    assert("GET_ECONOMY"@.len() == 11 && "GET_LEAGUE_COMPETITION"@.len() == 22);
    assert("SET_ECONOMY"@.len() == 11 && "GET_LEAGUE_COMPETITION"@.len() == 22);
    assert("GET_PLAYERS"@.len() == 11 && "GET_LEAGUE_COMPETITION"@.len() == 22);
    assert("GET_STAFFS"@.len() == 10 && "GET_LEAGUE_COMPETITION"@.len() == 22);
    assert("GET_LEAGUES"@.len() == 11 && "GET_LEAGUE_COMPETITION"@.len() == 22);
}

proof fn lemma_line_get_team_schedule(n: usize)
    ensures
        client_request("GET_TEAM_SCHEDULE|"@ + decimal_text(n as nat)) == Ok::<RequestView, BridgeError>(RequestView::GetGlobalTeamSchedule { team_id: n }),
{
    let cmd = "GET_TEAM_SCHEDULE"@;
    assert("GET_TEAM_SCHEDULE|"@ =~= cmd.push('|')) by {
        reveal_strlit("GET_TEAM_SCHEDULE|");
        reveal_strlit("GET_TEAM_SCHEDULE");
    }
    assert(cmd.len() > 0 && !crate::text::is_white_space(cmd[0]) && !cmd.contains('|')) by {
        reveal_strlit("GET_TEAM_SCHEDULE");
    }
    lemma_id_line_fields(cmd, n);
    crate::wire::lemma_id_text(n);
    let ps = seq![cmd, decimal_text(n as nat)];
    assert(request_fields("GET_TEAM_SCHEDULE|"@ + decimal_text(n as nat)) == ps);
    lemma_get_team_schedule_dispatch(ps);
}

proof fn lemma_get_team_schedule_dispatch(ps: Seq<Seq<char>>)
    requires
        ps.len() == 2,
        ps[0] == "GET_TEAM_SCHEDULE"@,
    ensures
        client_request_of(ps) == match usize_field(ps, 1) {
            Ok(id) => Ok::<RequestView, BridgeError>(RequestView::GetGlobalTeamSchedule { team_id: id }),
            Err(e) => Err(e),
        },
{
    reveal(client_request_of);
    reveal_strlit("PING");
    reveal_strlit("GET_ECONOMY");
    reveal_strlit("SET_ECONOMY");
    reveal_strlit("GET_PLAYERS");
    reveal_strlit("GET_STAFFS");
    reveal_strlit("GET_LEAGUES");
    reveal_strlit("GET_LEAGUE_COMPETITION");
    reveal_strlit("GET_TEAM_SCHEDULE");
    assert("PING"@.len() == 4 && "GET_TEAM_SCHEDULE"@.len() == 17);
    assert("GET_ECONOMY"@.len() == 11 && "GET_TEAM_SCHEDULE"@.len() == 17);
    assert("SET_ECONOMY"@.len() == 11 && "GET_TEAM_SCHEDULE"@.len() == 17);
    assert("GET_PLAYERS"@.len() == 11 && "GET_TEAM_SCHEDULE"@.len() == 17);
    assert("GET_STAFFS"@.len() == 10 && "GET_TEAM_SCHEDULE"@.len() == 17);
    assert("GET_LEAGUES"@.len() == 11 && "GET_TEAM_SCHEDULE"@.len() == 17);
    assert("GET_LEAGUE_COMPETITION"@.len() == 22 && "GET_TEAM_SCHEDULE"@.len() == 17);
}

proof fn lemma_line_get_team_history(n: usize)
    ensures
        client_request("GET_TEAM_HISTORY|"@ + decimal_text(n as nat)) == Ok::<RequestView, BridgeError>(RequestView::GetGlobalTeamHistory { team_id: n }),
{
    let cmd = "GET_TEAM_HISTORY"@;
    assert("GET_TEAM_HISTORY|"@ =~= cmd.push('|')) by {
        reveal_strlit("GET_TEAM_HISTORY|");
        reveal_strlit("GET_TEAM_HISTORY");
    }
    assert(cmd.len() > 0 && !crate::text::is_white_space(cmd[0]) && !cmd.contains('|')) by {
        reveal_strlit("GET_TEAM_HISTORY");
    }
    lemma_id_line_fields(cmd, n);
    crate::wire::lemma_id_text(n);
    let ps = seq![cmd, decimal_text(n as nat)];
    assert(request_fields("GET_TEAM_HISTORY|"@ + decimal_text(n as nat)) == ps);
    lemma_get_team_history_dispatch(ps);
}

proof fn lemma_get_team_history_dispatch(ps: Seq<Seq<char>>)
    requires
        ps.len() == 2,
        ps[0] == "GET_TEAM_HISTORY"@,
    ensures
        client_request_of(ps) == match usize_field(ps, 1) {
            Ok(id) => Ok::<RequestView, BridgeError>(RequestView::GetGlobalTeamHistory { team_id: id }),
            Err(e) => Err(e),
        },
{
    reveal(client_request_of);
    reveal_strlit("PING");
    reveal_strlit("GET_ECONOMY");
    reveal_strlit("SET_ECONOMY");
    reveal_strlit("GET_PLAYERS");
    reveal_strlit("GET_STAFFS");
    reveal_strlit("GET_LEAGUES");
    reveal_strlit("GET_LEAGUE_COMPETITION");
    reveal_strlit("GET_TEAM_SCHEDULE");
    reveal_strlit("GET_TEAM_HISTORY");
    assert("PING"@.len() == 4 && "GET_TEAM_HISTORY"@.len() == 16);
    assert("GET_ECONOMY"@.len() == 11 && "GET_TEAM_HISTORY"@.len() == 16);
    assert("SET_ECONOMY"@.len() == 11 && "GET_TEAM_HISTORY"@.len() == 16);
    assert("GET_PLAYERS"@.len() == 11 && "GET_TEAM_HISTORY"@.len() == 16);
    assert("GET_STAFFS"@.len() == 10 && "GET_TEAM_HISTORY"@.len() == 16);
    assert("GET_LEAGUES"@.len() == 11 && "GET_TEAM_HISTORY"@.len() == 16);
    assert("GET_LEAGUE_COMPETITION"@.len() == 22 && "GET_TEAM_HISTORY"@.len() == 16);
    assert("GET_TEAM_SCHEDULE"@.len() == 17 && "GET_TEAM_HISTORY"@.len() == 16);
}

proof fn lemma_line_get_staff(n: usize)
    ensures
        client_request("GET_STAFF|"@ + decimal_text(n as nat)) == Ok::<RequestView, BridgeError>(RequestView::GetStaff { staff_id: n }),
{
    let cmd = "GET_STAFF"@;
    assert("GET_STAFF|"@ =~= cmd.push('|')) by {
        reveal_strlit("GET_STAFF|");
        reveal_strlit("GET_STAFF");
    }
    assert(cmd.len() > 0 && !crate::text::is_white_space(cmd[0]) && !cmd.contains('|')) by {
        reveal_strlit("GET_STAFF");
    }
    lemma_id_line_fields(cmd, n);
    crate::wire::lemma_id_text(n);
    let ps = seq![cmd, decimal_text(n as nat)];
    assert(request_fields("GET_STAFF|"@ + decimal_text(n as nat)) == ps);
    lemma_get_staff_dispatch(ps);
}

proof fn lemma_get_staff_dispatch(ps: Seq<Seq<char>>)
    requires
        ps.len() == 2,
        ps[0] == "GET_STAFF"@,
    ensures
        client_request_of(ps) == match usize_field(ps, 1) {
            Ok(id) => Ok::<RequestView, BridgeError>(RequestView::GetStaff { staff_id: id }),
            Err(e) => Err(e),
        },
{
    reveal(client_request_of);
    reveal_strlit("PING");
    reveal_strlit("GET_ECONOMY");
    reveal_strlit("SET_ECONOMY");
    reveal_strlit("GET_PLAYERS");
    reveal_strlit("GET_STAFFS");
    reveal_strlit("GET_LEAGUES");
    reveal_strlit("GET_LEAGUE_COMPETITION");
    reveal_strlit("GET_TEAM_SCHEDULE");
    reveal_strlit("GET_TEAM_HISTORY");
    reveal_strlit("GET_TEAMS");
    reveal_strlit("GET_TEAM_STRATEGY_OPTIONS");
    reveal_strlit("GET_CONTRACT_DEFAULTS");
    reveal_strlit("GET_RECRUITMENT_SETTINGS");
    reveal_strlit("SET_TRANSFER_ALWAYS_SUCCESS");
    reveal_strlit("SET_RECRUITMENT_INSTANT_RETRY");
    reveal_strlit("GET_STAFF");
    assert("PING"@.len() == 4 && "GET_STAFF"@.len() == 9);
    assert("GET_ECONOMY"@.len() == 11 && "GET_STAFF"@.len() == 9);
    assert("SET_ECONOMY"@.len() == 11 && "GET_STAFF"@.len() == 9);
    assert("GET_PLAYERS"@.len() == 11 && "GET_STAFF"@.len() == 9);
    assert("GET_STAFFS"@.len() == 10 && "GET_STAFF"@.len() == 9);
    assert("GET_LEAGUES"@.len() == 11 && "GET_STAFF"@.len() == 9);
    assert("GET_LEAGUE_COMPETITION"@.len() == 22 && "GET_STAFF"@.len() == 9);
    assert("GET_TEAM_SCHEDULE"@.len() == 17 && "GET_STAFF"@.len() == 9);
    assert("GET_TEAM_HISTORY"@.len() == 16 && "GET_STAFF"@.len() == 9);
    assert("GET_TEAMS"@[4] != "GET_STAFF"@[4]);
    assert("GET_TEAM_STRATEGY_OPTIONS"@.len() == 25 && "GET_STAFF"@.len() == 9);
    assert("GET_CONTRACT_DEFAULTS"@.len() == 21 && "GET_STAFF"@.len() == 9);
    assert("GET_RECRUITMENT_SETTINGS"@.len() == 24 && "GET_STAFF"@.len() == 9);
    assert("SET_TRANSFER_ALWAYS_SUCCESS"@.len() == 27 && "GET_STAFF"@.len() == 9);
    assert("SET_RECRUITMENT_INSTANT_RETRY"@.len() == 29 && "GET_STAFF"@.len() == 9);
    lemma_general_request_none(ps);
}

proof fn lemma_line_get_staff_contract_probe(n: usize)
    ensures
        client_request("GET_STAFF_CONTRACT_PROBE|"@ + decimal_text(n as nat)) == Ok::<RequestView, BridgeError>(RequestView::GetStaffContractProbe { staff_id: n }),
{
    let cmd = "GET_STAFF_CONTRACT_PROBE"@;
    assert("GET_STAFF_CONTRACT_PROBE|"@ =~= cmd.push('|')) by {
        reveal_strlit("GET_STAFF_CONTRACT_PROBE|");
        reveal_strlit("GET_STAFF_CONTRACT_PROBE");
    }
    assert(cmd.len() > 0 && !crate::text::is_white_space(cmd[0]) && !cmd.contains('|')) by {
        reveal_strlit("GET_STAFF_CONTRACT_PROBE");
    }
    lemma_id_line_fields(cmd, n);
    crate::wire::lemma_id_text(n);
    let ps = seq![cmd, decimal_text(n as nat)];
    assert(request_fields("GET_STAFF_CONTRACT_PROBE|"@ + decimal_text(n as nat)) == ps);
    lemma_get_staff_contract_probe_dispatch(ps);
}

proof fn lemma_get_staff_contract_probe_dispatch(ps: Seq<Seq<char>>)
    requires
        ps.len() == 2,
        ps[0] == "GET_STAFF_CONTRACT_PROBE"@,
    ensures
        client_request_of(ps) == match usize_field(ps, 1) {
            Ok(id) => Ok::<RequestView, BridgeError>(RequestView::GetStaffContractProbe { staff_id: id }),
            Err(e) => Err(e),
        },
{
    reveal(client_request_of);
    reveal_strlit("PING");
    reveal_strlit("GET_ECONOMY");
    reveal_strlit("SET_ECONOMY");
    reveal_strlit("GET_PLAYERS");
    reveal_strlit("GET_STAFFS");
    reveal_strlit("GET_LEAGUES");
    reveal_strlit("GET_LEAGUE_COMPETITION");
    reveal_strlit("GET_TEAM_SCHEDULE");
    reveal_strlit("GET_TEAM_HISTORY");
    reveal_strlit("GET_TEAMS");
    reveal_strlit("GET_TEAM_STRATEGY_OPTIONS");
    reveal_strlit("GET_CONTRACT_DEFAULTS");
    reveal_strlit("GET_RECRUITMENT_SETTINGS");
    reveal_strlit("SET_TRANSFER_ALWAYS_SUCCESS");
    reveal_strlit("SET_RECRUITMENT_INSTANT_RETRY");
    reveal_strlit("GET_STAFF");
    reveal_strlit("GET_STAFF_CONTRACT_PROBE");
    assert("PING"@.len() == 4 && "GET_STAFF_CONTRACT_PROBE"@.len() == 24);
    assert("GET_ECONOMY"@.len() == 11 && "GET_STAFF_CONTRACT_PROBE"@.len() == 24);
    assert("SET_ECONOMY"@.len() == 11 && "GET_STAFF_CONTRACT_PROBE"@.len() == 24);
    assert("GET_PLAYERS"@.len() == 11 && "GET_STAFF_CONTRACT_PROBE"@.len() == 24);
    assert("GET_STAFFS"@.len() == 10 && "GET_STAFF_CONTRACT_PROBE"@.len() == 24);
    assert("GET_LEAGUES"@.len() == 11 && "GET_STAFF_CONTRACT_PROBE"@.len() == 24);
    assert("GET_LEAGUE_COMPETITION"@.len() == 22 && "GET_STAFF_CONTRACT_PROBE"@.len() == 24);
    assert("GET_TEAM_SCHEDULE"@.len() == 17 && "GET_STAFF_CONTRACT_PROBE"@.len() == 24);
    assert("GET_TEAM_HISTORY"@.len() == 16 && "GET_STAFF_CONTRACT_PROBE"@.len() == 24);
    assert("GET_TEAMS"@.len() == 9 && "GET_STAFF_CONTRACT_PROBE"@.len() == 24);
    assert("GET_TEAM_STRATEGY_OPTIONS"@.len() == 25 && "GET_STAFF_CONTRACT_PROBE"@.len() == 24);
    assert("GET_CONTRACT_DEFAULTS"@.len() == 21 && "GET_STAFF_CONTRACT_PROBE"@.len() == 24);
    assert("GET_RECRUITMENT_SETTINGS"@[4] != "GET_STAFF_CONTRACT_PROBE"@[4]);
    assert("SET_TRANSFER_ALWAYS_SUCCESS"@.len() == 27 && "GET_STAFF_CONTRACT_PROBE"@.len() == 24);
    assert("SET_RECRUITMENT_INSTANT_RETRY"@.len() == 29 && "GET_STAFF_CONTRACT_PROBE"@.len() == 24);
    assert("GET_STAFF"@.len() == 9 && "GET_STAFF_CONTRACT_PROBE"@.len() == 24);
    lemma_general_request_none(ps);
}

proof fn lemma_line_set_staff_free_agent(n: usize)
    ensures
        client_request("SET_STAFF_FREE_AGENT|"@ + decimal_text(n as nat)) == Ok::<RequestView, BridgeError>(RequestView::SetStaffFreeAgent { staff_id: n }),
{
    let cmd = "SET_STAFF_FREE_AGENT"@;
    assert("SET_STAFF_FREE_AGENT|"@ =~= cmd.push('|')) by {
        reveal_strlit("SET_STAFF_FREE_AGENT|");
        reveal_strlit("SET_STAFF_FREE_AGENT");
    }
    assert(cmd.len() > 0 && !crate::text::is_white_space(cmd[0]) && !cmd.contains('|')) by {
        reveal_strlit("SET_STAFF_FREE_AGENT");
    }
    lemma_id_line_fields(cmd, n);
    crate::wire::lemma_id_text(n);
    let ps = seq![cmd, decimal_text(n as nat)];
    assert(request_fields("SET_STAFF_FREE_AGENT|"@ + decimal_text(n as nat)) == ps);
    lemma_set_staff_free_agent_dispatch(ps);
}

proof fn lemma_set_staff_free_agent_dispatch(ps: Seq<Seq<char>>)
    requires
        ps.len() == 2,
        ps[0] == "SET_STAFF_FREE_AGENT"@,
    ensures
        client_request_of(ps) == match usize_field(ps, 1) {
            Ok(id) => Ok::<RequestView, BridgeError>(RequestView::SetStaffFreeAgent { staff_id: id }),
            Err(e) => Err(e),
        },
{
    reveal(client_request_of);
    reveal_strlit("PING");
    reveal_strlit("GET_ECONOMY");
    reveal_strlit("SET_ECONOMY");
    reveal_strlit("GET_PLAYERS");
    reveal_strlit("GET_STAFFS");
    reveal_strlit("GET_LEAGUES");
    reveal_strlit("GET_LEAGUE_COMPETITION");
    reveal_strlit("GET_TEAM_SCHEDULE");
    reveal_strlit("GET_TEAM_HISTORY");
    reveal_strlit("GET_TEAMS");
    reveal_strlit("GET_TEAM_STRATEGY_OPTIONS");
    reveal_strlit("GET_CONTRACT_DEFAULTS");
    reveal_strlit("GET_RECRUITMENT_SETTINGS");
    reveal_strlit("SET_TRANSFER_ALWAYS_SUCCESS");
    reveal_strlit("SET_RECRUITMENT_INSTANT_RETRY");
    reveal_strlit("GET_STAFF");
    reveal_strlit("GET_STAFF_CONTRACT_PROBE");
    reveal_strlit("SET_STAFF_NAME");
    reveal_strlit("SET_STAFF_STATS");
    reveal_strlit("SET_STAFF_SALARY");
    reveal_strlit("SET_STAFF_CONTRACT_END");
    reveal_strlit("SET_STAFF_CONTRACT");
    reveal_strlit("SET_STAFF_COMMUNICATION");
    reveal_strlit("MOVE_STAFF_TO_TEAM");
    reveal_strlit("SET_STAFF_FREE_AGENT");
    assert("PING"@.len() == 4 && "SET_STAFF_FREE_AGENT"@.len() == 20);
    assert("GET_ECONOMY"@.len() == 11 && "SET_STAFF_FREE_AGENT"@.len() == 20);
    assert("SET_ECONOMY"@.len() == 11 && "SET_STAFF_FREE_AGENT"@.len() == 20);
    assert("GET_PLAYERS"@.len() == 11 && "SET_STAFF_FREE_AGENT"@.len() == 20);
    assert("GET_STAFFS"@.len() == 10 && "SET_STAFF_FREE_AGENT"@.len() == 20);
    assert("GET_LEAGUES"@.len() == 11 && "SET_STAFF_FREE_AGENT"@.len() == 20);
    assert("GET_LEAGUE_COMPETITION"@.len() == 22 && "SET_STAFF_FREE_AGENT"@.len() == 20);
    assert("GET_TEAM_SCHEDULE"@.len() == 17 && "SET_STAFF_FREE_AGENT"@.len() == 20);
    assert("GET_TEAM_HISTORY"@.len() == 16 && "SET_STAFF_FREE_AGENT"@.len() == 20);
    assert("GET_TEAMS"@.len() == 9 && "SET_STAFF_FREE_AGENT"@.len() == 20);
    assert("GET_TEAM_STRATEGY_OPTIONS"@.len() == 25 && "SET_STAFF_FREE_AGENT"@.len() == 20);
    assert("GET_CONTRACT_DEFAULTS"@.len() == 21 && "SET_STAFF_FREE_AGENT"@.len() == 20);
    assert("GET_RECRUITMENT_SETTINGS"@.len() == 24 && "SET_STAFF_FREE_AGENT"@.len() == 20);
    assert("SET_TRANSFER_ALWAYS_SUCCESS"@.len() == 27 && "SET_STAFF_FREE_AGENT"@.len() == 20);
    assert("SET_RECRUITMENT_INSTANT_RETRY"@.len() == 29 && "SET_STAFF_FREE_AGENT"@.len() == 20);
    assert("GET_STAFF"@.len() == 9 && "SET_STAFF_FREE_AGENT"@.len() == 20);
    assert("GET_STAFF_CONTRACT_PROBE"@.len() == 24 && "SET_STAFF_FREE_AGENT"@.len() == 20);
    assert("SET_STAFF_NAME"@.len() == 14 && "SET_STAFF_FREE_AGENT"@.len() == 20);
    assert("SET_STAFF_STATS"@.len() == 15 && "SET_STAFF_FREE_AGENT"@.len() == 20);
    assert("SET_STAFF_SALARY"@.len() == 16 && "SET_STAFF_FREE_AGENT"@.len() == 20);
    assert("SET_STAFF_CONTRACT_END"@.len() == 22 && "SET_STAFF_FREE_AGENT"@.len() == 20);
    assert("SET_STAFF_CONTRACT"@.len() == 18 && "SET_STAFF_FREE_AGENT"@.len() == 20);
    assert("SET_STAFF_COMMUNICATION"@.len() == 23 && "SET_STAFF_FREE_AGENT"@.len() == 20);
    assert("MOVE_STAFF_TO_TEAM"@.len() == 18 && "SET_STAFF_FREE_AGENT"@.len() == 20);
    lemma_general_request_none(ps);
}

proof fn lemma_line_get_team_probe(n: usize)
    ensures
        client_request("GET_TEAM_PROBE|"@ + decimal_text(n as nat)) == Ok::<RequestView, BridgeError>(RequestView::GetTeamProbe { team_id: n }),
{
    let cmd = "GET_TEAM_PROBE"@;
    assert("GET_TEAM_PROBE|"@ =~= cmd.push('|')) by {
        reveal_strlit("GET_TEAM_PROBE|");
        reveal_strlit("GET_TEAM_PROBE");
    }
    assert(cmd.len() > 0 && !crate::text::is_white_space(cmd[0]) && !cmd.contains('|')) by {
        reveal_strlit("GET_TEAM_PROBE");
    }
    lemma_id_line_fields(cmd, n);
    crate::wire::lemma_id_text(n);
    let ps = seq![cmd, decimal_text(n as nat)];
    assert(request_fields("GET_TEAM_PROBE|"@ + decimal_text(n as nat)) == ps);
    lemma_get_team_probe_dispatch(ps);
}

proof fn lemma_get_team_probe_dispatch(ps: Seq<Seq<char>>)
    requires
        ps.len() == 2,
        ps[0] == "GET_TEAM_PROBE"@,
    ensures
        client_request_of(ps) == match usize_field(ps, 1) {
            Ok(id) => Ok::<RequestView, BridgeError>(RequestView::GetTeamProbe { team_id: id }),
            Err(e) => Err(e),
        },
{
    reveal(client_request_of);
    reveal_strlit("PING");
    reveal_strlit("GET_ECONOMY");
    reveal_strlit("SET_ECONOMY");
    reveal_strlit("GET_PLAYERS");
    reveal_strlit("GET_STAFFS");
    reveal_strlit("GET_LEAGUES");
    reveal_strlit("GET_LEAGUE_COMPETITION");
    reveal_strlit("GET_TEAM_SCHEDULE");
    reveal_strlit("GET_TEAM_HISTORY");
    reveal_strlit("GET_TEAMS");
    reveal_strlit("GET_TEAM_STRATEGY_OPTIONS");
    reveal_strlit("GET_CONTRACT_DEFAULTS");
    reveal_strlit("GET_RECRUITMENT_SETTINGS");
    reveal_strlit("SET_TRANSFER_ALWAYS_SUCCESS");
    reveal_strlit("SET_RECRUITMENT_INSTANT_RETRY");
    reveal_strlit("GET_STAFF");
    reveal_strlit("GET_STAFF_CONTRACT_PROBE");
    reveal_strlit("SET_STAFF_NAME");
    reveal_strlit("SET_STAFF_STATS");
    reveal_strlit("SET_STAFF_SALARY");
    reveal_strlit("SET_STAFF_CONTRACT_END");
    reveal_strlit("SET_STAFF_CONTRACT");
    reveal_strlit("SET_STAFF_COMMUNICATION");
    reveal_strlit("MOVE_STAFF_TO_TEAM");
    reveal_strlit("SET_STAFF_FREE_AGENT");
    reveal_strlit("GET_TEAM_PROBE");
    assert("PING"@.len() == 4 && "GET_TEAM_PROBE"@.len() == 14);
    assert("GET_ECONOMY"@.len() == 11 && "GET_TEAM_PROBE"@.len() == 14);
    assert("SET_ECONOMY"@.len() == 11 && "GET_TEAM_PROBE"@.len() == 14);
    assert("GET_PLAYERS"@.len() == 11 && "GET_TEAM_PROBE"@.len() == 14);
    assert("GET_STAFFS"@.len() == 10 && "GET_TEAM_PROBE"@.len() == 14);
    assert("GET_LEAGUES"@.len() == 11 && "GET_TEAM_PROBE"@.len() == 14);
    assert("GET_LEAGUE_COMPETITION"@.len() == 22 && "GET_TEAM_PROBE"@.len() == 14);
    assert("GET_TEAM_SCHEDULE"@.len() == 17 && "GET_TEAM_PROBE"@.len() == 14);
    assert("GET_TEAM_HISTORY"@.len() == 16 && "GET_TEAM_PROBE"@.len() == 14);
    assert("GET_TEAMS"@.len() == 9 && "GET_TEAM_PROBE"@.len() == 14);
    assert("GET_TEAM_STRATEGY_OPTIONS"@.len() == 25 && "GET_TEAM_PROBE"@.len() == 14);
    assert("GET_CONTRACT_DEFAULTS"@.len() == 21 && "GET_TEAM_PROBE"@.len() == 14);
    assert("GET_RECRUITMENT_SETTINGS"@.len() == 24 && "GET_TEAM_PROBE"@.len() == 14);
    assert("SET_TRANSFER_ALWAYS_SUCCESS"@.len() == 27 && "GET_TEAM_PROBE"@.len() == 14);
    assert("SET_RECRUITMENT_INSTANT_RETRY"@.len() == 29 && "GET_TEAM_PROBE"@.len() == 14);
    assert("GET_STAFF"@.len() == 9 && "GET_TEAM_PROBE"@.len() == 14);
    assert("GET_STAFF_CONTRACT_PROBE"@.len() == 24 && "GET_TEAM_PROBE"@.len() == 14);
    assert("SET_STAFF_NAME"@[0] != "GET_TEAM_PROBE"@[0]);
    assert("SET_STAFF_STATS"@.len() == 15 && "GET_TEAM_PROBE"@.len() == 14);
    assert("SET_STAFF_SALARY"@.len() == 16 && "GET_TEAM_PROBE"@.len() == 14);
    assert("SET_STAFF_CONTRACT_END"@.len() == 22 && "GET_TEAM_PROBE"@.len() == 14);
    assert("SET_STAFF_CONTRACT"@.len() == 18 && "GET_TEAM_PROBE"@.len() == 14);
    assert("SET_STAFF_COMMUNICATION"@.len() == 23 && "GET_TEAM_PROBE"@.len() == 14);
    assert("MOVE_STAFF_TO_TEAM"@.len() == 18 && "GET_TEAM_PROBE"@.len() == 14);
    assert("SET_STAFF_FREE_AGENT"@.len() == 20 && "GET_TEAM_PROBE"@.len() == 14);
    lemma_general_request_none(ps);
    lemma_staff_request_none(ps);
}

proof fn lemma_line_get_team_management(n: usize)
    ensures
        client_request("GET_TEAM_MANAGEMENT|"@ + decimal_text(n as nat)) == Ok::<RequestView, BridgeError>(RequestView::GetTeamManagement { team_id: n }),
{
    let cmd = "GET_TEAM_MANAGEMENT"@;
    assert("GET_TEAM_MANAGEMENT|"@ =~= cmd.push('|')) by {
        reveal_strlit("GET_TEAM_MANAGEMENT|");
        reveal_strlit("GET_TEAM_MANAGEMENT");
    }
    assert(cmd.len() > 0 && !crate::text::is_white_space(cmd[0]) && !cmd.contains('|')) by {
        reveal_strlit("GET_TEAM_MANAGEMENT");
    }
    lemma_id_line_fields(cmd, n);
    crate::wire::lemma_id_text(n);
    let ps = seq![cmd, decimal_text(n as nat)];
    assert(request_fields("GET_TEAM_MANAGEMENT|"@ + decimal_text(n as nat)) == ps);
    lemma_get_team_management_dispatch(ps);
}

proof fn lemma_get_team_management_dispatch(ps: Seq<Seq<char>>)
    requires
        ps.len() == 2,
        ps[0] == "GET_TEAM_MANAGEMENT"@,
    ensures
        client_request_of(ps) == match usize_field(ps, 1) {
            Ok(id) => Ok::<RequestView, BridgeError>(RequestView::GetTeamManagement { team_id: id }),
            Err(e) => Err(e),
        },
{
    reveal(client_request_of);
    reveal_strlit("PING");
    reveal_strlit("GET_ECONOMY");
    reveal_strlit("SET_ECONOMY");
    reveal_strlit("GET_PLAYERS");
    reveal_strlit("GET_STAFFS");
    reveal_strlit("GET_LEAGUES");
    reveal_strlit("GET_LEAGUE_COMPETITION");
    reveal_strlit("GET_TEAM_SCHEDULE");
    reveal_strlit("GET_TEAM_HISTORY");
    reveal_strlit("GET_TEAMS");
    reveal_strlit("GET_TEAM_STRATEGY_OPTIONS");
    reveal_strlit("GET_CONTRACT_DEFAULTS");
    reveal_strlit("GET_RECRUITMENT_SETTINGS");
    reveal_strlit("SET_TRANSFER_ALWAYS_SUCCESS");
    reveal_strlit("SET_RECRUITMENT_INSTANT_RETRY");
    reveal_strlit("GET_STAFF");
    reveal_strlit("GET_STAFF_CONTRACT_PROBE");
    reveal_strlit("SET_STAFF_NAME");
    reveal_strlit("SET_STAFF_STATS");
    reveal_strlit("SET_STAFF_SALARY");
    reveal_strlit("SET_STAFF_CONTRACT_END");
    reveal_strlit("SET_STAFF_CONTRACT");
    reveal_strlit("SET_STAFF_COMMUNICATION");
    reveal_strlit("MOVE_STAFF_TO_TEAM");
    reveal_strlit("SET_STAFF_FREE_AGENT");
    reveal_strlit("GET_TEAM_PROBE");
    reveal_strlit("GET_TEAM_MANAGEMENT");
    assert("PING"@.len() == 4 && "GET_TEAM_MANAGEMENT"@.len() == 19);
    assert("GET_ECONOMY"@.len() == 11 && "GET_TEAM_MANAGEMENT"@.len() == 19);
    assert("SET_ECONOMY"@.len() == 11 && "GET_TEAM_MANAGEMENT"@.len() == 19);
    assert("GET_PLAYERS"@.len() == 11 && "GET_TEAM_MANAGEMENT"@.len() == 19);
    assert("GET_STAFFS"@.len() == 10 && "GET_TEAM_MANAGEMENT"@.len() == 19);
    assert("GET_LEAGUES"@.len() == 11 && "GET_TEAM_MANAGEMENT"@.len() == 19);
    assert("GET_LEAGUE_COMPETITION"@.len() == 22 && "GET_TEAM_MANAGEMENT"@.len() == 19);
    assert("GET_TEAM_SCHEDULE"@.len() == 17 && "GET_TEAM_MANAGEMENT"@.len() == 19);
    assert("GET_TEAM_HISTORY"@.len() == 16 && "GET_TEAM_MANAGEMENT"@.len() == 19);
    assert("GET_TEAMS"@.len() == 9 && "GET_TEAM_MANAGEMENT"@.len() == 19);
    assert("GET_TEAM_STRATEGY_OPTIONS"@.len() == 25 && "GET_TEAM_MANAGEMENT"@.len() == 19);
    assert("GET_CONTRACT_DEFAULTS"@.len() == 21 && "GET_TEAM_MANAGEMENT"@.len() == 19);
    assert("GET_RECRUITMENT_SETTINGS"@.len() == 24 && "GET_TEAM_MANAGEMENT"@.len() == 19);
    assert("SET_TRANSFER_ALWAYS_SUCCESS"@.len() == 27 && "GET_TEAM_MANAGEMENT"@.len() == 19);
    assert("SET_RECRUITMENT_INSTANT_RETRY"@.len() == 29 && "GET_TEAM_MANAGEMENT"@.len() == 19);
    assert("GET_STAFF"@.len() == 9 && "GET_TEAM_MANAGEMENT"@.len() == 19);
    assert("GET_STAFF_CONTRACT_PROBE"@.len() == 24 && "GET_TEAM_MANAGEMENT"@.len() == 19);
    assert("SET_STAFF_NAME"@.len() == 14 && "GET_TEAM_MANAGEMENT"@.len() == 19);
    assert("SET_STAFF_STATS"@.len() == 15 && "GET_TEAM_MANAGEMENT"@.len() == 19);
    assert("SET_STAFF_SALARY"@.len() == 16 && "GET_TEAM_MANAGEMENT"@.len() == 19);
    assert("SET_STAFF_CONTRACT_END"@.len() == 22 && "GET_TEAM_MANAGEMENT"@.len() == 19);
    assert("SET_STAFF_CONTRACT"@.len() == 18 && "GET_TEAM_MANAGEMENT"@.len() == 19);
    assert("SET_STAFF_COMMUNICATION"@.len() == 23 && "GET_TEAM_MANAGEMENT"@.len() == 19);
    assert("MOVE_STAFF_TO_TEAM"@.len() == 18 && "GET_TEAM_MANAGEMENT"@.len() == 19);
    assert("SET_STAFF_FREE_AGENT"@.len() == 20 && "GET_TEAM_MANAGEMENT"@.len() == 19);
    assert("GET_TEAM_PROBE"@.len() == 14 && "GET_TEAM_MANAGEMENT"@.len() == 19);
    lemma_general_request_none(ps);
    lemma_staff_request_none(ps);
}

proof fn lemma_line_get_team_fan_momentum_probe(n: usize)
    ensures
        client_request("GET_TEAM_FAN_MOMENTUM_PROBE|"@ + decimal_text(n as nat)) == Ok::<RequestView, BridgeError>(RequestView::GetTeamFanMomentumProbe { team_id: n }),
{
    let cmd = "GET_TEAM_FAN_MOMENTUM_PROBE"@;
    assert("GET_TEAM_FAN_MOMENTUM_PROBE|"@ =~= cmd.push('|')) by {
        reveal_strlit("GET_TEAM_FAN_MOMENTUM_PROBE|");
        reveal_strlit("GET_TEAM_FAN_MOMENTUM_PROBE");
    }
    assert(cmd.len() > 0 && !crate::text::is_white_space(cmd[0]) && !cmd.contains('|')) by {
        reveal_strlit("GET_TEAM_FAN_MOMENTUM_PROBE");
    }
    lemma_id_line_fields(cmd, n);
    crate::wire::lemma_id_text(n);
    let ps = seq![cmd, decimal_text(n as nat)];
    assert(request_fields("GET_TEAM_FAN_MOMENTUM_PROBE|"@ + decimal_text(n as nat)) == ps);
    lemma_get_team_fan_momentum_probe_dispatch(ps);
}

proof fn lemma_get_team_fan_momentum_probe_dispatch(ps: Seq<Seq<char>>)
    requires
        ps.len() == 2,
        ps[0] == "GET_TEAM_FAN_MOMENTUM_PROBE"@,
    ensures
        client_request_of(ps) == match usize_field(ps, 1) {
            Ok(id) => Ok::<RequestView, BridgeError>(RequestView::GetTeamFanMomentumProbe { team_id: id }),
            Err(e) => Err(e),
        },
{
    reveal(client_request_of);
    reveal_strlit("PING");
    reveal_strlit("GET_ECONOMY");
    reveal_strlit("SET_ECONOMY");
    reveal_strlit("GET_PLAYERS");
    reveal_strlit("GET_STAFFS");
    reveal_strlit("GET_LEAGUES");
    reveal_strlit("GET_LEAGUE_COMPETITION");
    reveal_strlit("GET_TEAM_SCHEDULE");
    reveal_strlit("GET_TEAM_HISTORY");
    reveal_strlit("GET_TEAMS");
    reveal_strlit("GET_TEAM_STRATEGY_OPTIONS");
    reveal_strlit("GET_CONTRACT_DEFAULTS");
    reveal_strlit("GET_RECRUITMENT_SETTINGS");
    reveal_strlit("SET_TRANSFER_ALWAYS_SUCCESS");
    reveal_strlit("SET_RECRUITMENT_INSTANT_RETRY");
    reveal_strlit("GET_STAFF");
    reveal_strlit("GET_STAFF_CONTRACT_PROBE");
    reveal_strlit("SET_STAFF_NAME");
    reveal_strlit("SET_STAFF_STATS");
    reveal_strlit("SET_STAFF_SALARY");
    reveal_strlit("SET_STAFF_CONTRACT_END");
    reveal_strlit("SET_STAFF_CONTRACT");
    reveal_strlit("SET_STAFF_COMMUNICATION");
    reveal_strlit("MOVE_STAFF_TO_TEAM");
    reveal_strlit("SET_STAFF_FREE_AGENT");
    reveal_strlit("GET_TEAM_PROBE");
    reveal_strlit("GET_TEAM_MANAGEMENT");
    reveal_strlit("SET_TEAM_MERCHANDISE");
    reveal_strlit("SET_TEAM_FANS");
    reveal_strlit("GET_TEAM_FAN_MOMENTUM_PROBE");
    assert("PING"@.len() == 4 && "GET_TEAM_FAN_MOMENTUM_PROBE"@.len() == 27);
    assert("GET_ECONOMY"@.len() == 11 && "GET_TEAM_FAN_MOMENTUM_PROBE"@.len() == 27);
    assert("SET_ECONOMY"@.len() == 11 && "GET_TEAM_FAN_MOMENTUM_PROBE"@.len() == 27);
    assert("GET_PLAYERS"@.len() == 11 && "GET_TEAM_FAN_MOMENTUM_PROBE"@.len() == 27);
    assert("GET_STAFFS"@.len() == 10 && "GET_TEAM_FAN_MOMENTUM_PROBE"@.len() == 27);
    assert("GET_LEAGUES"@.len() == 11 && "GET_TEAM_FAN_MOMENTUM_PROBE"@.len() == 27);
    assert("GET_LEAGUE_COMPETITION"@.len() == 22 && "GET_TEAM_FAN_MOMENTUM_PROBE"@.len() == 27);
    assert("GET_TEAM_SCHEDULE"@.len() == 17 && "GET_TEAM_FAN_MOMENTUM_PROBE"@.len() == 27);
    assert("GET_TEAM_HISTORY"@.len() == 16 && "GET_TEAM_FAN_MOMENTUM_PROBE"@.len() == 27);
    assert("GET_TEAMS"@.len() == 9 && "GET_TEAM_FAN_MOMENTUM_PROBE"@.len() == 27);
    assert("GET_TEAM_STRATEGY_OPTIONS"@.len() == 25 && "GET_TEAM_FAN_MOMENTUM_PROBE"@.len() == 27);
    assert("GET_CONTRACT_DEFAULTS"@.len() == 21 && "GET_TEAM_FAN_MOMENTUM_PROBE"@.len() == 27);
    assert("GET_RECRUITMENT_SETTINGS"@.len() == 24 && "GET_TEAM_FAN_MOMENTUM_PROBE"@.len() == 27);
    assert("SET_TRANSFER_ALWAYS_SUCCESS"@[0] != "GET_TEAM_FAN_MOMENTUM_PROBE"@[0]);
    assert("SET_RECRUITMENT_INSTANT_RETRY"@.len() == 29 && "GET_TEAM_FAN_MOMENTUM_PROBE"@.len() == 27);
    assert("GET_STAFF"@.len() == 9 && "GET_TEAM_FAN_MOMENTUM_PROBE"@.len() == 27);
    assert("GET_STAFF_CONTRACT_PROBE"@.len() == 24 && "GET_TEAM_FAN_MOMENTUM_PROBE"@.len() == 27);
    assert("SET_STAFF_NAME"@.len() == 14 && "GET_TEAM_FAN_MOMENTUM_PROBE"@.len() == 27);
    assert("SET_STAFF_STATS"@.len() == 15 && "GET_TEAM_FAN_MOMENTUM_PROBE"@.len() == 27);
    assert("SET_STAFF_SALARY"@.len() == 16 && "GET_TEAM_FAN_MOMENTUM_PROBE"@.len() == 27);
    assert("SET_STAFF_CONTRACT_END"@.len() == 22 && "GET_TEAM_FAN_MOMENTUM_PROBE"@.len() == 27);
    assert("SET_STAFF_CONTRACT"@.len() == 18 && "GET_TEAM_FAN_MOMENTUM_PROBE"@.len() == 27);
    assert("SET_STAFF_COMMUNICATION"@.len() == 23 && "GET_TEAM_FAN_MOMENTUM_PROBE"@.len() == 27);
    assert("MOVE_STAFF_TO_TEAM"@.len() == 18 && "GET_TEAM_FAN_MOMENTUM_PROBE"@.len() == 27);
    assert("SET_STAFF_FREE_AGENT"@.len() == 20 && "GET_TEAM_FAN_MOMENTUM_PROBE"@.len() == 27);
    assert("GET_TEAM_PROBE"@.len() == 14 && "GET_TEAM_FAN_MOMENTUM_PROBE"@.len() == 27);
    assert("GET_TEAM_MANAGEMENT"@.len() == 19 && "GET_TEAM_FAN_MOMENTUM_PROBE"@.len() == 27);
    assert("SET_TEAM_MERCHANDISE"@.len() == 20 && "GET_TEAM_FAN_MOMENTUM_PROBE"@.len() == 27);
    assert("SET_TEAM_FANS"@.len() == 13 && "GET_TEAM_FAN_MOMENTUM_PROBE"@.len() == 27);
    lemma_general_request_none(ps);
    lemma_staff_request_none(ps);
}

proof fn lemma_line_probe_swap_team_strategy(n: usize)
    ensures
        client_request("PROBE_SWAP_TEAM_STRATEGY|"@ + decimal_text(n as nat)) == Ok::<RequestView, BridgeError>(RequestView::ProbeSwapTeamStrategy { team_id: n }),
{
    let cmd = "PROBE_SWAP_TEAM_STRATEGY"@;
    assert("PROBE_SWAP_TEAM_STRATEGY|"@ =~= cmd.push('|')) by {
        reveal_strlit("PROBE_SWAP_TEAM_STRATEGY|");
        reveal_strlit("PROBE_SWAP_TEAM_STRATEGY");
    }
    assert(cmd.len() > 0 && !crate::text::is_white_space(cmd[0]) && !cmd.contains('|')) by {
        reveal_strlit("PROBE_SWAP_TEAM_STRATEGY");
    }
    lemma_id_line_fields(cmd, n);
    crate::wire::lemma_id_text(n);
    let ps = seq![cmd, decimal_text(n as nat)];
    assert(request_fields("PROBE_SWAP_TEAM_STRATEGY|"@ + decimal_text(n as nat)) == ps);
    lemma_probe_swap_team_strategy_dispatch(ps);
}

proof fn lemma_probe_swap_team_strategy_dispatch(ps: Seq<Seq<char>>)
    requires
        ps.len() == 2,
        ps[0] == "PROBE_SWAP_TEAM_STRATEGY"@,
    ensures
        client_request_of(ps) == match usize_field(ps, 1) {
            Ok(id) => Ok::<RequestView, BridgeError>(RequestView::ProbeSwapTeamStrategy { team_id: id }),
            Err(e) => Err(e),
        },
{
    reveal(client_request_of);
    reveal_strlit("PING");
    reveal_strlit("GET_ECONOMY");
    reveal_strlit("SET_ECONOMY");
    reveal_strlit("GET_PLAYERS");
    reveal_strlit("GET_STAFFS");
    reveal_strlit("GET_LEAGUES");
    reveal_strlit("GET_LEAGUE_COMPETITION");
    reveal_strlit("GET_TEAM_SCHEDULE");
    reveal_strlit("GET_TEAM_HISTORY");
    reveal_strlit("GET_TEAMS");
    reveal_strlit("GET_TEAM_STRATEGY_OPTIONS");
    reveal_strlit("GET_CONTRACT_DEFAULTS");
    reveal_strlit("GET_RECRUITMENT_SETTINGS");
    reveal_strlit("SET_TRANSFER_ALWAYS_SUCCESS");
    reveal_strlit("SET_RECRUITMENT_INSTANT_RETRY");
    reveal_strlit("GET_STAFF");
    reveal_strlit("GET_STAFF_CONTRACT_PROBE");
    reveal_strlit("SET_STAFF_NAME");
    reveal_strlit("SET_STAFF_STATS");
    reveal_strlit("SET_STAFF_SALARY");
    reveal_strlit("SET_STAFF_CONTRACT_END");
    reveal_strlit("SET_STAFF_CONTRACT");
    reveal_strlit("SET_STAFF_COMMUNICATION");
    reveal_strlit("MOVE_STAFF_TO_TEAM");
    reveal_strlit("SET_STAFF_FREE_AGENT");
    reveal_strlit("GET_TEAM_PROBE");
    reveal_strlit("GET_TEAM_MANAGEMENT");
    reveal_strlit("SET_TEAM_MERCHANDISE");
    reveal_strlit("SET_TEAM_FANS");
    reveal_strlit("GET_TEAM_FAN_MOMENTUM_PROBE");
    reveal_strlit("GET_TEAM_REPLAY_STRATEGIES");
    reveal_strlit("PROBE_SWAP_TEAM_STRATEGY");
    assert("PING"@.len() == 4 && "PROBE_SWAP_TEAM_STRATEGY"@.len() == 24);
    assert("GET_ECONOMY"@.len() == 11 && "PROBE_SWAP_TEAM_STRATEGY"@.len() == 24);
    assert("SET_ECONOMY"@.len() == 11 && "PROBE_SWAP_TEAM_STRATEGY"@.len() == 24);
    assert("GET_PLAYERS"@.len() == 11 && "PROBE_SWAP_TEAM_STRATEGY"@.len() == 24);
    assert("GET_STAFFS"@.len() == 10 && "PROBE_SWAP_TEAM_STRATEGY"@.len() == 24);
    assert("GET_LEAGUES"@.len() == 11 && "PROBE_SWAP_TEAM_STRATEGY"@.len() == 24);
    assert("GET_LEAGUE_COMPETITION"@.len() == 22 && "PROBE_SWAP_TEAM_STRATEGY"@.len() == 24);
    assert("GET_TEAM_SCHEDULE"@.len() == 17 && "PROBE_SWAP_TEAM_STRATEGY"@.len() == 24);
    assert("GET_TEAM_HISTORY"@.len() == 16 && "PROBE_SWAP_TEAM_STRATEGY"@.len() == 24);
    assert("GET_TEAMS"@.len() == 9 && "PROBE_SWAP_TEAM_STRATEGY"@.len() == 24);
    assert("GET_TEAM_STRATEGY_OPTIONS"@.len() == 25 && "PROBE_SWAP_TEAM_STRATEGY"@.len() == 24);
    assert("GET_CONTRACT_DEFAULTS"@.len() == 21 && "PROBE_SWAP_TEAM_STRATEGY"@.len() == 24);
    assert("GET_RECRUITMENT_SETTINGS"@[0] != "PROBE_SWAP_TEAM_STRATEGY"@[0]);
    assert("SET_TRANSFER_ALWAYS_SUCCESS"@.len() == 27 && "PROBE_SWAP_TEAM_STRATEGY"@.len() == 24);
    assert("SET_RECRUITMENT_INSTANT_RETRY"@.len() == 29 && "PROBE_SWAP_TEAM_STRATEGY"@.len() == 24);
    assert("GET_STAFF"@.len() == 9 && "PROBE_SWAP_TEAM_STRATEGY"@.len() == 24);
    assert("GET_STAFF_CONTRACT_PROBE"@[0] != "PROBE_SWAP_TEAM_STRATEGY"@[0]);
    assert("SET_STAFF_NAME"@.len() == 14 && "PROBE_SWAP_TEAM_STRATEGY"@.len() == 24);
    assert("SET_STAFF_STATS"@.len() == 15 && "PROBE_SWAP_TEAM_STRATEGY"@.len() == 24);
    assert("SET_STAFF_SALARY"@.len() == 16 && "PROBE_SWAP_TEAM_STRATEGY"@.len() == 24);
    assert("SET_STAFF_CONTRACT_END"@.len() == 22 && "PROBE_SWAP_TEAM_STRATEGY"@.len() == 24);
    assert("SET_STAFF_CONTRACT"@.len() == 18 && "PROBE_SWAP_TEAM_STRATEGY"@.len() == 24);
    assert("SET_STAFF_COMMUNICATION"@.len() == 23 && "PROBE_SWAP_TEAM_STRATEGY"@.len() == 24);
    assert("MOVE_STAFF_TO_TEAM"@.len() == 18 && "PROBE_SWAP_TEAM_STRATEGY"@.len() == 24);
    assert("SET_STAFF_FREE_AGENT"@.len() == 20 && "PROBE_SWAP_TEAM_STRATEGY"@.len() == 24);
    assert("GET_TEAM_PROBE"@.len() == 14 && "PROBE_SWAP_TEAM_STRATEGY"@.len() == 24);
    assert("GET_TEAM_MANAGEMENT"@.len() == 19 && "PROBE_SWAP_TEAM_STRATEGY"@.len() == 24);
    assert("SET_TEAM_MERCHANDISE"@.len() == 20 && "PROBE_SWAP_TEAM_STRATEGY"@.len() == 24);
    assert("SET_TEAM_FANS"@.len() == 13 && "PROBE_SWAP_TEAM_STRATEGY"@.len() == 24);
    assert("GET_TEAM_FAN_MOMENTUM_PROBE"@.len() == 27 && "PROBE_SWAP_TEAM_STRATEGY"@.len() == 24);
    assert("GET_TEAM_REPLAY_STRATEGIES"@.len() == 26 && "PROBE_SWAP_TEAM_STRATEGY"@.len() == 24);
    lemma_general_request_none(ps);
    lemma_staff_request_none(ps);
}

proof fn lemma_line_set_player_free_agent(n: usize)
    ensures
        client_request("SET_PLAYER_FREE_AGENT|"@ + decimal_text(n as nat)) == Ok::<RequestView, BridgeError>(RequestView::SetPlayerFreeAgent { athlete_id: n }),
{
    let cmd = "SET_PLAYER_FREE_AGENT"@;
    assert("SET_PLAYER_FREE_AGENT|"@ =~= cmd.push('|')) by {
        reveal_strlit("SET_PLAYER_FREE_AGENT|");
        reveal_strlit("SET_PLAYER_FREE_AGENT");
    }
    assert(cmd.len() > 0 && !crate::text::is_white_space(cmd[0]) && !cmd.contains('|')) by {
        reveal_strlit("SET_PLAYER_FREE_AGENT");
    }
    lemma_id_line_fields(cmd, n);
    crate::wire::lemma_id_text(n);
    let ps = seq![cmd, decimal_text(n as nat)];
    assert(request_fields("SET_PLAYER_FREE_AGENT|"@ + decimal_text(n as nat)) == ps);
    lemma_set_player_free_agent_dispatch(ps);
}

proof fn lemma_set_player_free_agent_dispatch(ps: Seq<Seq<char>>)
    requires
        ps.len() == 2,
        ps[0] == "SET_PLAYER_FREE_AGENT"@,
    ensures
        client_request_of(ps) == match usize_field(ps, 1) {
            Ok(id) => Ok::<RequestView, BridgeError>(RequestView::SetPlayerFreeAgent { athlete_id: id }),
            Err(e) => Err(e),
        },
{
    reveal(client_request_of);
    reveal_strlit("PING");
    reveal_strlit("GET_ECONOMY");
    reveal_strlit("SET_ECONOMY");
    reveal_strlit("GET_PLAYERS");
    reveal_strlit("GET_STAFFS");
    reveal_strlit("GET_LEAGUES");
    reveal_strlit("GET_LEAGUE_COMPETITION");
    reveal_strlit("GET_TEAM_SCHEDULE");
    reveal_strlit("GET_TEAM_HISTORY");
    reveal_strlit("GET_TEAMS");
    reveal_strlit("GET_TEAM_STRATEGY_OPTIONS");
    reveal_strlit("GET_CONTRACT_DEFAULTS");
    reveal_strlit("GET_RECRUITMENT_SETTINGS");
    reveal_strlit("SET_TRANSFER_ALWAYS_SUCCESS");
    reveal_strlit("SET_RECRUITMENT_INSTANT_RETRY");
    reveal_strlit("GET_STAFF");
    reveal_strlit("GET_STAFF_CONTRACT_PROBE");
    reveal_strlit("SET_STAFF_NAME");
    reveal_strlit("SET_STAFF_STATS");
    reveal_strlit("SET_STAFF_SALARY");
    reveal_strlit("SET_STAFF_CONTRACT_END");
    reveal_strlit("SET_STAFF_CONTRACT");
    reveal_strlit("SET_STAFF_COMMUNICATION");
    reveal_strlit("MOVE_STAFF_TO_TEAM");
    reveal_strlit("SET_STAFF_FREE_AGENT");
    reveal_strlit("GET_TEAM_PROBE");
    reveal_strlit("GET_TEAM_MANAGEMENT");
    reveal_strlit("SET_TEAM_MERCHANDISE");
    reveal_strlit("SET_TEAM_FANS");
    reveal_strlit("GET_TEAM_FAN_MOMENTUM_PROBE");
    reveal_strlit("GET_TEAM_REPLAY_STRATEGIES");
    reveal_strlit("PROBE_SWAP_TEAM_STRATEGY");
    reveal_strlit("SET_TEAM_STRATEGY");
    reveal_strlit("MOVE_PLAYER_TO_TEAM");
    reveal_strlit("SET_PLAYER_FREE_AGENT");
    assert("PING"@.len() == 4 && "SET_PLAYER_FREE_AGENT"@.len() == 21);
    assert("GET_ECONOMY"@.len() == 11 && "SET_PLAYER_FREE_AGENT"@.len() == 21);
    assert("SET_ECONOMY"@.len() == 11 && "SET_PLAYER_FREE_AGENT"@.len() == 21);
    assert("GET_PLAYERS"@.len() == 11 && "SET_PLAYER_FREE_AGENT"@.len() == 21);
    assert("GET_STAFFS"@.len() == 10 && "SET_PLAYER_FREE_AGENT"@.len() == 21);
    assert("GET_LEAGUES"@.len() == 11 && "SET_PLAYER_FREE_AGENT"@.len() == 21);
    assert("GET_LEAGUE_COMPETITION"@.len() == 22 && "SET_PLAYER_FREE_AGENT"@.len() == 21);
    assert("GET_TEAM_SCHEDULE"@.len() == 17 && "SET_PLAYER_FREE_AGENT"@.len() == 21);
    assert("GET_TEAM_HISTORY"@.len() == 16 && "SET_PLAYER_FREE_AGENT"@.len() == 21);
    assert("GET_TEAMS"@.len() == 9 && "SET_PLAYER_FREE_AGENT"@.len() == 21);
    assert("GET_TEAM_STRATEGY_OPTIONS"@.len() == 25 && "SET_PLAYER_FREE_AGENT"@.len() == 21);
    assert("GET_CONTRACT_DEFAULTS"@[0] != "SET_PLAYER_FREE_AGENT"@[0]);
    assert("GET_RECRUITMENT_SETTINGS"@.len() == 24 && "SET_PLAYER_FREE_AGENT"@.len() == 21);
    assert("SET_TRANSFER_ALWAYS_SUCCESS"@.len() == 27 && "SET_PLAYER_FREE_AGENT"@.len() == 21);
    assert("SET_RECRUITMENT_INSTANT_RETRY"@.len() == 29 && "SET_PLAYER_FREE_AGENT"@.len() == 21);
    assert("GET_STAFF"@.len() == 9 && "SET_PLAYER_FREE_AGENT"@.len() == 21);
    assert("GET_STAFF_CONTRACT_PROBE"@.len() == 24 && "SET_PLAYER_FREE_AGENT"@.len() == 21);
    assert("SET_STAFF_NAME"@.len() == 14 && "SET_PLAYER_FREE_AGENT"@.len() == 21);
    assert("SET_STAFF_STATS"@.len() == 15 && "SET_PLAYER_FREE_AGENT"@.len() == 21);
    assert("SET_STAFF_SALARY"@.len() == 16 && "SET_PLAYER_FREE_AGENT"@.len() == 21);
    assert("SET_STAFF_CONTRACT_END"@.len() == 22 && "SET_PLAYER_FREE_AGENT"@.len() == 21);
    assert("SET_STAFF_CONTRACT"@.len() == 18 && "SET_PLAYER_FREE_AGENT"@.len() == 21);
    assert("SET_STAFF_COMMUNICATION"@.len() == 23 && "SET_PLAYER_FREE_AGENT"@.len() == 21);
    assert("MOVE_STAFF_TO_TEAM"@.len() == 18 && "SET_PLAYER_FREE_AGENT"@.len() == 21);
    assert("SET_STAFF_FREE_AGENT"@.len() == 20 && "SET_PLAYER_FREE_AGENT"@.len() == 21);
    assert("GET_TEAM_PROBE"@.len() == 14 && "SET_PLAYER_FREE_AGENT"@.len() == 21);
    assert("GET_TEAM_MANAGEMENT"@.len() == 19 && "SET_PLAYER_FREE_AGENT"@.len() == 21);
    assert("SET_TEAM_MERCHANDISE"@.len() == 20 && "SET_PLAYER_FREE_AGENT"@.len() == 21);
    assert("SET_TEAM_FANS"@.len() == 13 && "SET_PLAYER_FREE_AGENT"@.len() == 21);
    assert("GET_TEAM_FAN_MOMENTUM_PROBE"@.len() == 27 && "SET_PLAYER_FREE_AGENT"@.len() == 21);
    assert("GET_TEAM_REPLAY_STRATEGIES"@.len() == 26 && "SET_PLAYER_FREE_AGENT"@.len() == 21);
    assert("PROBE_SWAP_TEAM_STRATEGY"@.len() == 24 && "SET_PLAYER_FREE_AGENT"@.len() == 21);
    assert("SET_TEAM_STRATEGY"@.len() == 17 && "SET_PLAYER_FREE_AGENT"@.len() == 21);
    assert("MOVE_PLAYER_TO_TEAM"@.len() == 19 && "SET_PLAYER_FREE_AGENT"@.len() == 21);
    lemma_general_request_none(ps);
    lemma_staff_request_none(ps);
    lemma_team_request_none(ps);
}

proof fn lemma_line_get_player(n: usize)
    ensures
        client_request("GET_PLAYER|"@ + decimal_text(n as nat)) == Ok::<RequestView, BridgeError>(RequestView::GetPlayer { athlete_id: n }),
{
    let cmd = "GET_PLAYER"@;
    assert("GET_PLAYER|"@ =~= cmd.push('|')) by {
        reveal_strlit("GET_PLAYER|");
        reveal_strlit("GET_PLAYER");
    }
    assert(cmd.len() > 0 && !crate::text::is_white_space(cmd[0]) && !cmd.contains('|')) by {
        reveal_strlit("GET_PLAYER");
    }
    lemma_id_line_fields(cmd, n);
    crate::wire::lemma_id_text(n);
    let ps = seq![cmd, decimal_text(n as nat)];
    assert(request_fields("GET_PLAYER|"@ + decimal_text(n as nat)) == ps);
    lemma_get_player_dispatch(ps);
}

proof fn lemma_get_player_dispatch(ps: Seq<Seq<char>>)
    requires
        ps.len() == 2,
        ps[0] == "GET_PLAYER"@,
    ensures
        client_request_of(ps) == match usize_field(ps, 1) {
            Ok(id) => Ok::<RequestView, BridgeError>(RequestView::GetPlayer { athlete_id: id }),
            Err(e) => Err(e),
        },
{
    reveal(client_request_of);
    reveal_strlit("PING");
    reveal_strlit("GET_ECONOMY");
    reveal_strlit("SET_ECONOMY");
    reveal_strlit("GET_PLAYERS");
    reveal_strlit("GET_STAFFS");
    reveal_strlit("GET_LEAGUES");
    reveal_strlit("GET_LEAGUE_COMPETITION");
    reveal_strlit("GET_TEAM_SCHEDULE");
    reveal_strlit("GET_TEAM_HISTORY");
    reveal_strlit("GET_TEAMS");
    reveal_strlit("GET_TEAM_STRATEGY_OPTIONS");
    reveal_strlit("GET_CONTRACT_DEFAULTS");
    reveal_strlit("GET_RECRUITMENT_SETTINGS");
    reveal_strlit("SET_TRANSFER_ALWAYS_SUCCESS");
    reveal_strlit("SET_RECRUITMENT_INSTANT_RETRY");
    reveal_strlit("GET_STAFF");
    reveal_strlit("GET_STAFF_CONTRACT_PROBE");
    reveal_strlit("SET_STAFF_NAME");
    reveal_strlit("SET_STAFF_STATS");
    reveal_strlit("SET_STAFF_SALARY");
    reveal_strlit("SET_STAFF_CONTRACT_END");
    reveal_strlit("SET_STAFF_CONTRACT");
    reveal_strlit("SET_STAFF_COMMUNICATION");
    reveal_strlit("MOVE_STAFF_TO_TEAM");
    reveal_strlit("SET_STAFF_FREE_AGENT");
    reveal_strlit("GET_TEAM_PROBE");
    reveal_strlit("GET_TEAM_MANAGEMENT");
    reveal_strlit("SET_TEAM_MERCHANDISE");
    reveal_strlit("SET_TEAM_FANS");
    reveal_strlit("GET_TEAM_FAN_MOMENTUM_PROBE");
    reveal_strlit("GET_TEAM_REPLAY_STRATEGIES");
    reveal_strlit("PROBE_SWAP_TEAM_STRATEGY");
    reveal_strlit("SET_TEAM_STRATEGY");
    reveal_strlit("MOVE_PLAYER_TO_TEAM");
    reveal_strlit("SET_PLAYER_FREE_AGENT");
    reveal_strlit("GET_PLAYER");
    assert("PING"@.len() == 4 && "GET_PLAYER"@.len() == 10);
    assert("GET_ECONOMY"@.len() == 11 && "GET_PLAYER"@.len() == 10);
    assert("SET_ECONOMY"@.len() == 11 && "GET_PLAYER"@.len() == 10);
    assert("GET_PLAYERS"@.len() == 11 && "GET_PLAYER"@.len() == 10);
    assert("GET_STAFFS"@[4] != "GET_PLAYER"@[4]);
    assert("GET_LEAGUES"@.len() == 11 && "GET_PLAYER"@.len() == 10);
    assert("GET_LEAGUE_COMPETITION"@.len() == 22 && "GET_PLAYER"@.len() == 10);
    assert("GET_TEAM_SCHEDULE"@.len() == 17 && "GET_PLAYER"@.len() == 10);
    assert("GET_TEAM_HISTORY"@.len() == 16 && "GET_PLAYER"@.len() == 10);
    assert("GET_TEAMS"@.len() == 9 && "GET_PLAYER"@.len() == 10);
    assert("GET_TEAM_STRATEGY_OPTIONS"@.len() == 25 && "GET_PLAYER"@.len() == 10);
    assert("GET_CONTRACT_DEFAULTS"@.len() == 21 && "GET_PLAYER"@.len() == 10);
    assert("GET_RECRUITMENT_SETTINGS"@.len() == 24 && "GET_PLAYER"@.len() == 10);
    assert("SET_TRANSFER_ALWAYS_SUCCESS"@.len() == 27 && "GET_PLAYER"@.len() == 10);
    assert("SET_RECRUITMENT_INSTANT_RETRY"@.len() == 29 && "GET_PLAYER"@.len() == 10);
    assert("GET_STAFF"@.len() == 9 && "GET_PLAYER"@.len() == 10);
    assert("GET_STAFF_CONTRACT_PROBE"@.len() == 24 && "GET_PLAYER"@.len() == 10);
    assert("SET_STAFF_NAME"@.len() == 14 && "GET_PLAYER"@.len() == 10);
    assert("SET_STAFF_STATS"@.len() == 15 && "GET_PLAYER"@.len() == 10);
    assert("SET_STAFF_SALARY"@.len() == 16 && "GET_PLAYER"@.len() == 10);
    assert("SET_STAFF_CONTRACT_END"@.len() == 22 && "GET_PLAYER"@.len() == 10);
    assert("SET_STAFF_CONTRACT"@.len() == 18 && "GET_PLAYER"@.len() == 10);
    assert("SET_STAFF_COMMUNICATION"@.len() == 23 && "GET_PLAYER"@.len() == 10);
    assert("MOVE_STAFF_TO_TEAM"@.len() == 18 && "GET_PLAYER"@.len() == 10);
    assert("SET_STAFF_FREE_AGENT"@.len() == 20 && "GET_PLAYER"@.len() == 10);
    assert("GET_TEAM_PROBE"@.len() == 14 && "GET_PLAYER"@.len() == 10);
    assert("GET_TEAM_MANAGEMENT"@.len() == 19 && "GET_PLAYER"@.len() == 10);
    assert("SET_TEAM_MERCHANDISE"@.len() == 20 && "GET_PLAYER"@.len() == 10);
    assert("SET_TEAM_FANS"@.len() == 13 && "GET_PLAYER"@.len() == 10);
    assert("GET_TEAM_FAN_MOMENTUM_PROBE"@.len() == 27 && "GET_PLAYER"@.len() == 10);
    assert("GET_TEAM_REPLAY_STRATEGIES"@.len() == 26 && "GET_PLAYER"@.len() == 10);
    assert("PROBE_SWAP_TEAM_STRATEGY"@.len() == 24 && "GET_PLAYER"@.len() == 10);
    assert("SET_TEAM_STRATEGY"@.len() == 17 && "GET_PLAYER"@.len() == 10);
    assert("MOVE_PLAYER_TO_TEAM"@.len() == 19 && "GET_PLAYER"@.len() == 10);
    assert("SET_PLAYER_FREE_AGENT"@.len() == 21 && "GET_PLAYER"@.len() == 10);
    lemma_general_request_none(ps);
    lemma_staff_request_none(ps);
    lemma_team_request_none(ps);
}

proof fn lemma_line_get_player_contract_probe(n: usize)
    ensures
        client_request("GET_PLAYER_CONTRACT_PROBE|"@ + decimal_text(n as nat)) == Ok::<RequestView, BridgeError>(RequestView::GetPlayerContractProbe { athlete_id: n }),
{
    let cmd = "GET_PLAYER_CONTRACT_PROBE"@;
    assert("GET_PLAYER_CONTRACT_PROBE|"@ =~= cmd.push('|')) by {
        reveal_strlit("GET_PLAYER_CONTRACT_PROBE|");
        reveal_strlit("GET_PLAYER_CONTRACT_PROBE");
    }
    assert(cmd.len() > 0 && !crate::text::is_white_space(cmd[0]) && !cmd.contains('|')) by {
        reveal_strlit("GET_PLAYER_CONTRACT_PROBE");
    }
    lemma_id_line_fields(cmd, n);
    crate::wire::lemma_id_text(n);
    let ps = seq![cmd, decimal_text(n as nat)];
    assert(request_fields("GET_PLAYER_CONTRACT_PROBE|"@ + decimal_text(n as nat)) == ps);
    lemma_get_player_contract_probe_dispatch(ps);
}

proof fn lemma_get_player_contract_probe_dispatch(ps: Seq<Seq<char>>)
    requires
        ps.len() == 2,
        ps[0] == "GET_PLAYER_CONTRACT_PROBE"@,
    ensures
        client_request_of(ps) == match usize_field(ps, 1) {
            Ok(id) => Ok::<RequestView, BridgeError>(RequestView::GetPlayerContractProbe { athlete_id: id }),
            Err(e) => Err(e),
        },
{
    reveal(client_request_of);
    reveal_strlit("PING");
    reveal_strlit("GET_ECONOMY");
    reveal_strlit("SET_ECONOMY");
    reveal_strlit("GET_PLAYERS");
    reveal_strlit("GET_STAFFS");
    reveal_strlit("GET_LEAGUES");
    reveal_strlit("GET_LEAGUE_COMPETITION");
    reveal_strlit("GET_TEAM_SCHEDULE");
    reveal_strlit("GET_TEAM_HISTORY");
    reveal_strlit("GET_TEAMS");
    reveal_strlit("GET_TEAM_STRATEGY_OPTIONS");
    reveal_strlit("GET_CONTRACT_DEFAULTS");
    reveal_strlit("GET_RECRUITMENT_SETTINGS");
    reveal_strlit("SET_TRANSFER_ALWAYS_SUCCESS");
    reveal_strlit("SET_RECRUITMENT_INSTANT_RETRY");
    reveal_strlit("GET_STAFF");
    reveal_strlit("GET_STAFF_CONTRACT_PROBE");
    reveal_strlit("SET_STAFF_NAME");
    reveal_strlit("SET_STAFF_STATS");
    reveal_strlit("SET_STAFF_SALARY");
    reveal_strlit("SET_STAFF_CONTRACT_END");
    reveal_strlit("SET_STAFF_CONTRACT");
    reveal_strlit("SET_STAFF_COMMUNICATION");
    reveal_strlit("MOVE_STAFF_TO_TEAM");
    reveal_strlit("SET_STAFF_FREE_AGENT");
    reveal_strlit("GET_TEAM_PROBE");
    reveal_strlit("GET_TEAM_MANAGEMENT");
    reveal_strlit("SET_TEAM_MERCHANDISE");
    reveal_strlit("SET_TEAM_FANS");
    reveal_strlit("GET_TEAM_FAN_MOMENTUM_PROBE");
    reveal_strlit("GET_TEAM_REPLAY_STRATEGIES");
    reveal_strlit("PROBE_SWAP_TEAM_STRATEGY");
    reveal_strlit("SET_TEAM_STRATEGY");
    reveal_strlit("MOVE_PLAYER_TO_TEAM");
    reveal_strlit("SET_PLAYER_FREE_AGENT");
    reveal_strlit("GET_PLAYER");
    reveal_strlit("GET_PLAYER_CONTRACT_PROBE");
    assert("PING"@.len() == 4 && "GET_PLAYER_CONTRACT_PROBE"@.len() == 25);
    assert("GET_ECONOMY"@.len() == 11 && "GET_PLAYER_CONTRACT_PROBE"@.len() == 25);
    assert("SET_ECONOMY"@.len() == 11 && "GET_PLAYER_CONTRACT_PROBE"@.len() == 25);
    assert("GET_PLAYERS"@.len() == 11 && "GET_PLAYER_CONTRACT_PROBE"@.len() == 25);
    assert("GET_STAFFS"@.len() == 10 && "GET_PLAYER_CONTRACT_PROBE"@.len() == 25);
    assert("GET_LEAGUES"@.len() == 11 && "GET_PLAYER_CONTRACT_PROBE"@.len() == 25);
    assert("GET_LEAGUE_COMPETITION"@.len() == 22 && "GET_PLAYER_CONTRACT_PROBE"@.len() == 25);
    assert("GET_TEAM_SCHEDULE"@.len() == 17 && "GET_PLAYER_CONTRACT_PROBE"@.len() == 25);
    assert("GET_TEAM_HISTORY"@.len() == 16 && "GET_PLAYER_CONTRACT_PROBE"@.len() == 25);
    assert("GET_TEAMS"@.len() == 9 && "GET_PLAYER_CONTRACT_PROBE"@.len() == 25);
    assert("GET_TEAM_STRATEGY_OPTIONS"@[4] != "GET_PLAYER_CONTRACT_PROBE"@[4]);
    assert("GET_CONTRACT_DEFAULTS"@.len() == 21 && "GET_PLAYER_CONTRACT_PROBE"@.len() == 25);
    assert("GET_RECRUITMENT_SETTINGS"@.len() == 24 && "GET_PLAYER_CONTRACT_PROBE"@.len() == 25);
    assert("SET_TRANSFER_ALWAYS_SUCCESS"@.len() == 27 && "GET_PLAYER_CONTRACT_PROBE"@.len() == 25);
    assert("SET_RECRUITMENT_INSTANT_RETRY"@.len() == 29 && "GET_PLAYER_CONTRACT_PROBE"@.len() == 25);
    assert("GET_STAFF"@.len() == 9 && "GET_PLAYER_CONTRACT_PROBE"@.len() == 25);
    assert("GET_STAFF_CONTRACT_PROBE"@.len() == 24 && "GET_PLAYER_CONTRACT_PROBE"@.len() == 25);
    assert("SET_STAFF_NAME"@.len() == 14 && "GET_PLAYER_CONTRACT_PROBE"@.len() == 25);
    assert("SET_STAFF_STATS"@.len() == 15 && "GET_PLAYER_CONTRACT_PROBE"@.len() == 25);
    assert("SET_STAFF_SALARY"@.len() == 16 && "GET_PLAYER_CONTRACT_PROBE"@.len() == 25);
    assert("SET_STAFF_CONTRACT_END"@.len() == 22 && "GET_PLAYER_CONTRACT_PROBE"@.len() == 25);
    assert("SET_STAFF_CONTRACT"@.len() == 18 && "GET_PLAYER_CONTRACT_PROBE"@.len() == 25);
    assert("SET_STAFF_COMMUNICATION"@.len() == 23 && "GET_PLAYER_CONTRACT_PROBE"@.len() == 25);
    assert("MOVE_STAFF_TO_TEAM"@.len() == 18 && "GET_PLAYER_CONTRACT_PROBE"@.len() == 25);
    assert("SET_STAFF_FREE_AGENT"@.len() == 20 && "GET_PLAYER_CONTRACT_PROBE"@.len() == 25);
    assert("GET_TEAM_PROBE"@.len() == 14 && "GET_PLAYER_CONTRACT_PROBE"@.len() == 25);
    assert("GET_TEAM_MANAGEMENT"@.len() == 19 && "GET_PLAYER_CONTRACT_PROBE"@.len() == 25);
    assert("SET_TEAM_MERCHANDISE"@.len() == 20 && "GET_PLAYER_CONTRACT_PROBE"@.len() == 25);
    assert("SET_TEAM_FANS"@.len() == 13 && "GET_PLAYER_CONTRACT_PROBE"@.len() == 25);
    assert("GET_TEAM_FAN_MOMENTUM_PROBE"@.len() == 27 && "GET_PLAYER_CONTRACT_PROBE"@.len() == 25);
    assert("GET_TEAM_REPLAY_STRATEGIES"@.len() == 26 && "GET_PLAYER_CONTRACT_PROBE"@.len() == 25);
    assert("PROBE_SWAP_TEAM_STRATEGY"@.len() == 24 && "GET_PLAYER_CONTRACT_PROBE"@.len() == 25);
    assert("SET_TEAM_STRATEGY"@.len() == 17 && "GET_PLAYER_CONTRACT_PROBE"@.len() == 25);
    assert("MOVE_PLAYER_TO_TEAM"@.len() == 19 && "GET_PLAYER_CONTRACT_PROBE"@.len() == 25);
    assert("SET_PLAYER_FREE_AGENT"@.len() == 21 && "GET_PLAYER_CONTRACT_PROBE"@.len() == 25);
    assert("GET_PLAYER"@.len() == 10 && "GET_PLAYER_CONTRACT_PROBE"@.len() == 25);
    lemma_general_request_none(ps);
    lemma_staff_request_none(ps);
    lemma_team_request_none(ps);
}

proof fn lemma_line_get_champion_mastery_probe(n: usize)
    ensures
        client_request("GET_CHAMPION_MASTERY_PROBE|"@ + decimal_text(n as nat)) == Ok::<RequestView, BridgeError>(RequestView::GetChampionMasteryProbe { athlete_id: n }),
{
    let cmd = "GET_CHAMPION_MASTERY_PROBE"@;
    assert("GET_CHAMPION_MASTERY_PROBE|"@ =~= cmd.push('|')) by {
        reveal_strlit("GET_CHAMPION_MASTERY_PROBE|");
        reveal_strlit("GET_CHAMPION_MASTERY_PROBE");
    }
    assert(cmd.len() > 0 && !crate::text::is_white_space(cmd[0]) && !cmd.contains('|')) by {
        reveal_strlit("GET_CHAMPION_MASTERY_PROBE");
    }
    lemma_id_line_fields(cmd, n);
    crate::wire::lemma_id_text(n);
    let ps = seq![cmd, decimal_text(n as nat)];
    assert(request_fields("GET_CHAMPION_MASTERY_PROBE|"@ + decimal_text(n as nat)) == ps);
    lemma_get_champion_mastery_probe_dispatch(ps);
}

proof fn lemma_get_champion_mastery_probe_dispatch(ps: Seq<Seq<char>>)
    requires
        ps.len() == 2,
        ps[0] == "GET_CHAMPION_MASTERY_PROBE"@,
    ensures
        client_request_of(ps) == match usize_field(ps, 1) {
            Ok(id) => Ok::<RequestView, BridgeError>(RequestView::GetChampionMasteryProbe { athlete_id: id }),
            Err(e) => Err(e),
        },
{
    reveal(client_request_of);
    reveal_strlit("PING");
    reveal_strlit("GET_ECONOMY");
    reveal_strlit("SET_ECONOMY");
    reveal_strlit("GET_PLAYERS");
    reveal_strlit("GET_STAFFS");
    reveal_strlit("GET_LEAGUES");
    reveal_strlit("GET_LEAGUE_COMPETITION");
    reveal_strlit("GET_TEAM_SCHEDULE");
    reveal_strlit("GET_TEAM_HISTORY");
    reveal_strlit("GET_TEAMS");
    reveal_strlit("GET_TEAM_STRATEGY_OPTIONS");
    reveal_strlit("GET_CONTRACT_DEFAULTS");
    reveal_strlit("GET_RECRUITMENT_SETTINGS");
    reveal_strlit("SET_TRANSFER_ALWAYS_SUCCESS");
    reveal_strlit("SET_RECRUITMENT_INSTANT_RETRY");
    reveal_strlit("GET_STAFF");
    reveal_strlit("GET_STAFF_CONTRACT_PROBE");
    reveal_strlit("SET_STAFF_NAME");
    reveal_strlit("SET_STAFF_STATS");
    reveal_strlit("SET_STAFF_SALARY");
    reveal_strlit("SET_STAFF_CONTRACT_END");
    reveal_strlit("SET_STAFF_CONTRACT");
    reveal_strlit("SET_STAFF_COMMUNICATION");
    reveal_strlit("MOVE_STAFF_TO_TEAM");
    reveal_strlit("SET_STAFF_FREE_AGENT");
    reveal_strlit("GET_TEAM_PROBE");
    reveal_strlit("GET_TEAM_MANAGEMENT");
    reveal_strlit("SET_TEAM_MERCHANDISE");
    reveal_strlit("SET_TEAM_FANS");
    reveal_strlit("GET_TEAM_FAN_MOMENTUM_PROBE");
    reveal_strlit("GET_TEAM_REPLAY_STRATEGIES");
    reveal_strlit("PROBE_SWAP_TEAM_STRATEGY");
    reveal_strlit("SET_TEAM_STRATEGY");
    reveal_strlit("MOVE_PLAYER_TO_TEAM");
    reveal_strlit("SET_PLAYER_FREE_AGENT");
    reveal_strlit("GET_PLAYER");
    reveal_strlit("GET_PLAYER_CONTRACT_PROBE");
    reveal_strlit("SET_PLAYER_NAME");
    reveal_strlit("SET_PLAYER_CONDITION");
    reveal_strlit("GET_CHAMPION_MASTERY_PROBE");
    assert("PING"@.len() == 4 && "GET_CHAMPION_MASTERY_PROBE"@.len() == 26);
    assert("GET_ECONOMY"@.len() == 11 && "GET_CHAMPION_MASTERY_PROBE"@.len() == 26);
    assert("SET_ECONOMY"@.len() == 11 && "GET_CHAMPION_MASTERY_PROBE"@.len() == 26);
    assert("GET_PLAYERS"@.len() == 11 && "GET_CHAMPION_MASTERY_PROBE"@.len() == 26);
    assert("GET_STAFFS"@.len() == 10 && "GET_CHAMPION_MASTERY_PROBE"@.len() == 26);
    assert("GET_LEAGUES"@.len() == 11 && "GET_CHAMPION_MASTERY_PROBE"@.len() == 26);
    assert("GET_LEAGUE_COMPETITION"@.len() == 22 && "GET_CHAMPION_MASTERY_PROBE"@.len() == 26);
    assert("GET_TEAM_SCHEDULE"@.len() == 17 && "GET_CHAMPION_MASTERY_PROBE"@.len() == 26);
    assert("GET_TEAM_HISTORY"@.len() == 16 && "GET_CHAMPION_MASTERY_PROBE"@.len() == 26);
    assert("GET_TEAMS"@.len() == 9 && "GET_CHAMPION_MASTERY_PROBE"@.len() == 26);
    assert("GET_TEAM_STRATEGY_OPTIONS"@.len() == 25 && "GET_CHAMPION_MASTERY_PROBE"@.len() == 26);
    assert("GET_CONTRACT_DEFAULTS"@.len() == 21 && "GET_CHAMPION_MASTERY_PROBE"@.len() == 26);
    assert("GET_RECRUITMENT_SETTINGS"@.len() == 24 && "GET_CHAMPION_MASTERY_PROBE"@.len() == 26);
    assert("SET_TRANSFER_ALWAYS_SUCCESS"@.len() == 27 && "GET_CHAMPION_MASTERY_PROBE"@.len() == 26);
    assert("SET_RECRUITMENT_INSTANT_RETRY"@.len() == 29 && "GET_CHAMPION_MASTERY_PROBE"@.len() == 26);
    assert("GET_STAFF"@.len() == 9 && "GET_CHAMPION_MASTERY_PROBE"@.len() == 26);
    assert("GET_STAFF_CONTRACT_PROBE"@.len() == 24 && "GET_CHAMPION_MASTERY_PROBE"@.len() == 26);
    assert("SET_STAFF_NAME"@.len() == 14 && "GET_CHAMPION_MASTERY_PROBE"@.len() == 26);
    assert("SET_STAFF_STATS"@.len() == 15 && "GET_CHAMPION_MASTERY_PROBE"@.len() == 26);
    assert("SET_STAFF_SALARY"@.len() == 16 && "GET_CHAMPION_MASTERY_PROBE"@.len() == 26);
    assert("SET_STAFF_CONTRACT_END"@.len() == 22 && "GET_CHAMPION_MASTERY_PROBE"@.len() == 26);
    assert("SET_STAFF_CONTRACT"@.len() == 18 && "GET_CHAMPION_MASTERY_PROBE"@.len() == 26);
    assert("SET_STAFF_COMMUNICATION"@.len() == 23 && "GET_CHAMPION_MASTERY_PROBE"@.len() == 26);
    assert("MOVE_STAFF_TO_TEAM"@.len() == 18 && "GET_CHAMPION_MASTERY_PROBE"@.len() == 26);
    assert("SET_STAFF_FREE_AGENT"@.len() == 20 && "GET_CHAMPION_MASTERY_PROBE"@.len() == 26);
    assert("GET_TEAM_PROBE"@.len() == 14 && "GET_CHAMPION_MASTERY_PROBE"@.len() == 26);
    assert("GET_TEAM_MANAGEMENT"@.len() == 19 && "GET_CHAMPION_MASTERY_PROBE"@.len() == 26);
    assert("SET_TEAM_MERCHANDISE"@.len() == 20 && "GET_CHAMPION_MASTERY_PROBE"@.len() == 26);
    assert("SET_TEAM_FANS"@.len() == 13 && "GET_CHAMPION_MASTERY_PROBE"@.len() == 26);
    assert("GET_TEAM_FAN_MOMENTUM_PROBE"@.len() == 27 && "GET_CHAMPION_MASTERY_PROBE"@.len() == 26);
    assert("GET_TEAM_REPLAY_STRATEGIES"@[4] != "GET_CHAMPION_MASTERY_PROBE"@[4]);
    assert("PROBE_SWAP_TEAM_STRATEGY"@.len() == 24 && "GET_CHAMPION_MASTERY_PROBE"@.len() == 26);
    assert("SET_TEAM_STRATEGY"@.len() == 17 && "GET_CHAMPION_MASTERY_PROBE"@.len() == 26);
    assert("MOVE_PLAYER_TO_TEAM"@.len() == 19 && "GET_CHAMPION_MASTERY_PROBE"@.len() == 26);
    assert("SET_PLAYER_FREE_AGENT"@.len() == 21 && "GET_CHAMPION_MASTERY_PROBE"@.len() == 26);
    assert("GET_PLAYER"@.len() == 10 && "GET_CHAMPION_MASTERY_PROBE"@.len() == 26);
    assert("GET_PLAYER_CONTRACT_PROBE"@.len() == 25 && "GET_CHAMPION_MASTERY_PROBE"@.len() == 26);
    assert("SET_PLAYER_NAME"@.len() == 15 && "GET_CHAMPION_MASTERY_PROBE"@.len() == 26);
    assert("SET_PLAYER_CONDITION"@.len() == 20 && "GET_CHAMPION_MASTERY_PROBE"@.len() == 26);
    lemma_general_request_none(ps);
    lemma_staff_request_none(ps);
    lemma_team_request_none(ps);
}

proof fn lemma_line_set_player_communication_max(n: usize)
    ensures
        client_request("SET_PLAYER_COMMUNICATION_MAX|"@ + decimal_text(n as nat)) == Ok::<RequestView, BridgeError>(RequestView::SetPlayerCommunicationMax { athlete_id: n }),
{
    let cmd = "SET_PLAYER_COMMUNICATION_MAX"@;
    assert("SET_PLAYER_COMMUNICATION_MAX|"@ =~= cmd.push('|')) by {
        reveal_strlit("SET_PLAYER_COMMUNICATION_MAX|");
        reveal_strlit("SET_PLAYER_COMMUNICATION_MAX");
    }
    assert(cmd.len() > 0 && !crate::text::is_white_space(cmd[0]) && !cmd.contains('|')) by {
        reveal_strlit("SET_PLAYER_COMMUNICATION_MAX");
    }
    lemma_id_line_fields(cmd, n);
    crate::wire::lemma_id_text(n);
    let ps = seq![cmd, decimal_text(n as nat)];
    assert(request_fields("SET_PLAYER_COMMUNICATION_MAX|"@ + decimal_text(n as nat)) == ps);
    lemma_set_player_communication_max_dispatch(ps);
}

proof fn lemma_set_player_communication_max_dispatch(ps: Seq<Seq<char>>)
    requires
        ps.len() == 2,
        ps[0] == "SET_PLAYER_COMMUNICATION_MAX"@,
    ensures
        client_request_of(ps) == match usize_field(ps, 1) {
            Ok(id) => Ok::<RequestView, BridgeError>(RequestView::SetPlayerCommunicationMax { athlete_id: id }),
            Err(e) => Err(e),
        },
{
    reveal(client_request_of);
    reveal_strlit("PING");
    reveal_strlit("GET_ECONOMY");
    reveal_strlit("SET_ECONOMY");
    reveal_strlit("GET_PLAYERS");
    reveal_strlit("GET_STAFFS");
    reveal_strlit("GET_LEAGUES");
    reveal_strlit("GET_LEAGUE_COMPETITION");
    reveal_strlit("GET_TEAM_SCHEDULE");
    reveal_strlit("GET_TEAM_HISTORY");
    reveal_strlit("GET_TEAMS");
    reveal_strlit("GET_TEAM_STRATEGY_OPTIONS");
    reveal_strlit("GET_CONTRACT_DEFAULTS");
    reveal_strlit("GET_RECRUITMENT_SETTINGS");
    reveal_strlit("SET_TRANSFER_ALWAYS_SUCCESS");
    reveal_strlit("SET_RECRUITMENT_INSTANT_RETRY");
    reveal_strlit("GET_STAFF");
    reveal_strlit("GET_STAFF_CONTRACT_PROBE");
    reveal_strlit("SET_STAFF_NAME");
    reveal_strlit("SET_STAFF_STATS");
    reveal_strlit("SET_STAFF_SALARY");
    reveal_strlit("SET_STAFF_CONTRACT_END");
    reveal_strlit("SET_STAFF_CONTRACT");
    reveal_strlit("SET_STAFF_COMMUNICATION");
    reveal_strlit("MOVE_STAFF_TO_TEAM");
    reveal_strlit("SET_STAFF_FREE_AGENT");
    reveal_strlit("GET_TEAM_PROBE");
    reveal_strlit("GET_TEAM_MANAGEMENT");
    reveal_strlit("SET_TEAM_MERCHANDISE");
    reveal_strlit("SET_TEAM_FANS");
    reveal_strlit("GET_TEAM_FAN_MOMENTUM_PROBE");
    reveal_strlit("GET_TEAM_REPLAY_STRATEGIES");
    reveal_strlit("PROBE_SWAP_TEAM_STRATEGY");
    reveal_strlit("SET_TEAM_STRATEGY");
    reveal_strlit("MOVE_PLAYER_TO_TEAM");
    reveal_strlit("SET_PLAYER_FREE_AGENT");
    reveal_strlit("GET_PLAYER");
    reveal_strlit("GET_PLAYER_CONTRACT_PROBE");
    reveal_strlit("SET_PLAYER_NAME");
    reveal_strlit("SET_PLAYER_CONDITION");
    reveal_strlit("GET_CHAMPION_MASTERY_PROBE");
    reveal_strlit("SET_CHAMPION_MASTERY");
    reveal_strlit("SET_PLAYER_COMMUNICATION_MAX");
    assert("PING"@.len() == 4 && "SET_PLAYER_COMMUNICATION_MAX"@.len() == 28);
    assert("GET_ECONOMY"@.len() == 11 && "SET_PLAYER_COMMUNICATION_MAX"@.len() == 28);
    assert("SET_ECONOMY"@.len() == 11 && "SET_PLAYER_COMMUNICATION_MAX"@.len() == 28);
    assert("GET_PLAYERS"@.len() == 11 && "SET_PLAYER_COMMUNICATION_MAX"@.len() == 28);
    assert("GET_STAFFS"@.len() == 10 && "SET_PLAYER_COMMUNICATION_MAX"@.len() == 28);
    assert("GET_LEAGUES"@.len() == 11 && "SET_PLAYER_COMMUNICATION_MAX"@.len() == 28);
    assert("GET_LEAGUE_COMPETITION"@.len() == 22 && "SET_PLAYER_COMMUNICATION_MAX"@.len() == 28);
    assert("GET_TEAM_SCHEDULE"@.len() == 17 && "SET_PLAYER_COMMUNICATION_MAX"@.len() == 28);
    assert("GET_TEAM_HISTORY"@.len() == 16 && "SET_PLAYER_COMMUNICATION_MAX"@.len() == 28);
    assert("GET_TEAMS"@.len() == 9 && "SET_PLAYER_COMMUNICATION_MAX"@.len() == 28);
    assert("GET_TEAM_STRATEGY_OPTIONS"@.len() == 25 && "SET_PLAYER_COMMUNICATION_MAX"@.len() == 28);
    assert("GET_CONTRACT_DEFAULTS"@.len() == 21 && "SET_PLAYER_COMMUNICATION_MAX"@.len() == 28);
    assert("GET_RECRUITMENT_SETTINGS"@.len() == 24 && "SET_PLAYER_COMMUNICATION_MAX"@.len() == 28);
    assert("SET_TRANSFER_ALWAYS_SUCCESS"@.len() == 27 && "SET_PLAYER_COMMUNICATION_MAX"@.len() == 28);
    assert("SET_RECRUITMENT_INSTANT_RETRY"@.len() == 29 && "SET_PLAYER_COMMUNICATION_MAX"@.len() == 28);
    assert("GET_STAFF"@.len() == 9 && "SET_PLAYER_COMMUNICATION_MAX"@.len() == 28);
    assert("GET_STAFF_CONTRACT_PROBE"@.len() == 24 && "SET_PLAYER_COMMUNICATION_MAX"@.len() == 28);
    assert("SET_STAFF_NAME"@.len() == 14 && "SET_PLAYER_COMMUNICATION_MAX"@.len() == 28);
    assert("SET_STAFF_STATS"@.len() == 15 && "SET_PLAYER_COMMUNICATION_MAX"@.len() == 28);
    assert("SET_STAFF_SALARY"@.len() == 16 && "SET_PLAYER_COMMUNICATION_MAX"@.len() == 28);
    assert("SET_STAFF_CONTRACT_END"@.len() == 22 && "SET_PLAYER_COMMUNICATION_MAX"@.len() == 28);
    assert("SET_STAFF_CONTRACT"@.len() == 18 && "SET_PLAYER_COMMUNICATION_MAX"@.len() == 28);
    assert("SET_STAFF_COMMUNICATION"@.len() == 23 && "SET_PLAYER_COMMUNICATION_MAX"@.len() == 28);
    assert("MOVE_STAFF_TO_TEAM"@.len() == 18 && "SET_PLAYER_COMMUNICATION_MAX"@.len() == 28);
    assert("SET_STAFF_FREE_AGENT"@.len() == 20 && "SET_PLAYER_COMMUNICATION_MAX"@.len() == 28);
    assert("GET_TEAM_PROBE"@.len() == 14 && "SET_PLAYER_COMMUNICATION_MAX"@.len() == 28);
    assert("GET_TEAM_MANAGEMENT"@.len() == 19 && "SET_PLAYER_COMMUNICATION_MAX"@.len() == 28);
    assert("SET_TEAM_MERCHANDISE"@.len() == 20 && "SET_PLAYER_COMMUNICATION_MAX"@.len() == 28);
    assert("SET_TEAM_FANS"@.len() == 13 && "SET_PLAYER_COMMUNICATION_MAX"@.len() == 28);
    assert("GET_TEAM_FAN_MOMENTUM_PROBE"@.len() == 27 && "SET_PLAYER_COMMUNICATION_MAX"@.len() == 28);
    assert("GET_TEAM_REPLAY_STRATEGIES"@.len() == 26 && "SET_PLAYER_COMMUNICATION_MAX"@.len() == 28);
    assert("PROBE_SWAP_TEAM_STRATEGY"@.len() == 24 && "SET_PLAYER_COMMUNICATION_MAX"@.len() == 28);
    assert("SET_TEAM_STRATEGY"@.len() == 17 && "SET_PLAYER_COMMUNICATION_MAX"@.len() == 28);
    assert("MOVE_PLAYER_TO_TEAM"@.len() == 19 && "SET_PLAYER_COMMUNICATION_MAX"@.len() == 28);
    assert("SET_PLAYER_FREE_AGENT"@.len() == 21 && "SET_PLAYER_COMMUNICATION_MAX"@.len() == 28);
    assert("GET_PLAYER"@.len() == 10 && "SET_PLAYER_COMMUNICATION_MAX"@.len() == 28);
    assert("GET_PLAYER_CONTRACT_PROBE"@.len() == 25 && "SET_PLAYER_COMMUNICATION_MAX"@.len() == 28);
    assert("SET_PLAYER_NAME"@.len() == 15 && "SET_PLAYER_COMMUNICATION_MAX"@.len() == 28);
    assert("SET_PLAYER_CONDITION"@.len() == 20 && "SET_PLAYER_COMMUNICATION_MAX"@.len() == 28);
    assert("GET_CHAMPION_MASTERY_PROBE"@.len() == 26 && "SET_PLAYER_COMMUNICATION_MAX"@.len() == 28);
    assert("SET_CHAMPION_MASTERY"@.len() == 20 && "SET_PLAYER_COMMUNICATION_MAX"@.len() == 28);
    lemma_general_request_none(ps);
    lemma_staff_request_none(ps);
    lemma_team_request_none(ps);
}

/// The plain commands: each name alone, or followed by `|` and an id, asks
/// for its own request, and an id command carries the id the line gives.
pub proof fn lemma_plain_command_requests(n: usize)
    ensures
        client_request("PING"@) == Ok::<RequestView, BridgeError>(RequestView::Ping),
        client_request("GET_ECONOMY"@) == Ok::<RequestView, BridgeError>(RequestView::GetEconomy),
        client_request("GET_PLAYERS"@) == Ok::<RequestView, BridgeError>(RequestView::GetPlayers),
        client_request("GET_STAFFS"@) == Ok::<RequestView, BridgeError>(RequestView::GetStaffs),
        client_request("GET_LEAGUES"@) == Ok::<RequestView, BridgeError>(RequestView::GetGlobalLeagues),
        client_request("GET_TEAMS"@) == Ok::<RequestView, BridgeError>(RequestView::GetTeams),
        client_request("GET_TEAM_STRATEGY_OPTIONS"@) == Ok::<RequestView, BridgeError>(RequestView::GetTeamStrategyOptions),
        client_request("GET_RECRUITMENT_SETTINGS"@) == Ok::<RequestView, BridgeError>(RequestView::GetRecruitmentSettings),
        client_request("GET_LEAGUE_COMPETITION|"@ + decimal_text(n as nat)) == Ok::<RequestView, BridgeError>(RequestView::GetGlobalLeagueCompetition { league_id: n }),
        client_request("GET_TEAM_SCHEDULE|"@ + decimal_text(n as nat)) == Ok::<RequestView, BridgeError>(RequestView::GetGlobalTeamSchedule { team_id: n }),
        client_request("GET_TEAM_HISTORY|"@ + decimal_text(n as nat)) == Ok::<RequestView, BridgeError>(RequestView::GetGlobalTeamHistory { team_id: n }),
        client_request("GET_STAFF|"@ + decimal_text(n as nat)) == Ok::<RequestView, BridgeError>(RequestView::GetStaff { staff_id: n }),
        client_request("GET_STAFF_CONTRACT_PROBE|"@ + decimal_text(n as nat)) == Ok::<RequestView, BridgeError>(RequestView::GetStaffContractProbe { staff_id: n }),
        client_request("SET_STAFF_FREE_AGENT|"@ + decimal_text(n as nat)) == Ok::<RequestView, BridgeError>(RequestView::SetStaffFreeAgent { staff_id: n }),
        client_request("GET_TEAM_PROBE|"@ + decimal_text(n as nat)) == Ok::<RequestView, BridgeError>(RequestView::GetTeamProbe { team_id: n }),
        client_request("GET_TEAM_MANAGEMENT|"@ + decimal_text(n as nat)) == Ok::<RequestView, BridgeError>(RequestView::GetTeamManagement { team_id: n }),
        client_request("GET_TEAM_FAN_MOMENTUM_PROBE|"@ + decimal_text(n as nat)) == Ok::<RequestView, BridgeError>(RequestView::GetTeamFanMomentumProbe { team_id: n }),
        client_request("PROBE_SWAP_TEAM_STRATEGY|"@ + decimal_text(n as nat)) == Ok::<RequestView, BridgeError>(RequestView::ProbeSwapTeamStrategy { team_id: n }),
        client_request("SET_PLAYER_FREE_AGENT|"@ + decimal_text(n as nat)) == Ok::<RequestView, BridgeError>(RequestView::SetPlayerFreeAgent { athlete_id: n }),
        client_request("GET_PLAYER|"@ + decimal_text(n as nat)) == Ok::<RequestView, BridgeError>(RequestView::GetPlayer { athlete_id: n }),
        client_request("GET_PLAYER_CONTRACT_PROBE|"@ + decimal_text(n as nat)) == Ok::<RequestView, BridgeError>(RequestView::GetPlayerContractProbe { athlete_id: n }),
        client_request("GET_CHAMPION_MASTERY_PROBE|"@ + decimal_text(n as nat)) == Ok::<RequestView, BridgeError>(RequestView::GetChampionMasteryProbe { athlete_id: n }),
        client_request("SET_PLAYER_COMMUNICATION_MAX|"@ + decimal_text(n as nat)) == Ok::<RequestView, BridgeError>(RequestView::SetPlayerCommunicationMax { athlete_id: n }),
{
    lemma_line_ping();
    lemma_line_get_economy();
    lemma_line_get_players();
    lemma_line_get_staffs();
    lemma_line_get_leagues();
    lemma_line_get_teams();
    lemma_line_get_team_strategy_options();
    lemma_line_get_recruitment_settings();
    lemma_line_get_league_competition(n);
    lemma_line_get_team_schedule(n);
    lemma_line_get_team_history(n);
    lemma_line_get_staff(n);
    lemma_line_get_staff_contract_probe(n);
    lemma_line_set_staff_free_agent(n);
    lemma_line_get_team_probe(n);
    lemma_line_get_team_management(n);
    lemma_line_get_team_fan_momentum_probe(n);
    lemma_line_probe_swap_team_strategy(n);
    lemma_line_set_player_free_agent(n);
    lemma_line_get_player(n);
    lemma_line_get_player_contract_probe(n);
    lemma_line_get_champion_mastery_probe(n);
    lemma_line_set_player_communication_max(n);
}

/// A last field that the line carries as it is: no `|` in it, and no
/// white space at its end, which trimming the line would take away.
pub open spec fn plain_field(s: Seq<char>) -> bool {
    &&& !s.contains('|')
    &&& s.len() > 0 ==> !crate::text::is_white_space(s[s.len() - 1])
}

/// A command name, `|` and a plain field read as the two fields.
proof fn lemma_two_fields(cmd: Seq<char>, b: Seq<char>)
    requires
        cmd.len() > 0,
        !crate::text::is_white_space(cmd[0]),
        !cmd.contains('|'),
        plain_field(b),
    ensures
        request_fields(cmd.push('|') + b) == seq![cmd, b],
{
    let line = cmd.push('|') + b;
    assert(line[0] == cmd[0]);
    if b.len() > 0 {
        assert(line[line.len() - 1] == b[b.len() - 1]);
    } else {
        assert(line[line.len() - 1] == '|');
    }
    crate::text::lemma_trimmed_unchanged(line);
    let ps = seq![cmd, b];
    assert(ps.drop_last() =~= seq![cmd]);
    assert(join_pieces(seq![cmd], '|') == cmd);
    assert(join_pieces(ps, '|') =~= line);
    assert forall|i: int| 0 <= i < ps.len() implies !(#[trigger] ps[i]).contains('|') by {
        if i == 1 {
            assert(ps[i] == b);
        }
    }
    crate::text::lemma_split_join(ps, '|');
}

/// A command name and two fields, each after a `|`, read as the three
/// fields.
proof fn lemma_three_fields(cmd: Seq<char>, b: Seq<char>, c: Seq<char>)
    requires
        cmd.len() > 0,
        !crate::text::is_white_space(cmd[0]),
        !cmd.contains('|'),
        !b.contains('|'),
        plain_field(c),
    ensures
        request_fields(cmd.push('|') + b + "|"@ + c) == seq![cmd, b, c],
{
    reveal_strlit("|");
    let line = cmd.push('|') + b + "|"@ + c;
    assert(line[0] == cmd[0]);
    if c.len() > 0 {
        assert(line[line.len() - 1] == c[c.len() - 1]);
    } else {
        assert(line[line.len() - 1] == '|');
    }
    crate::text::lemma_trimmed_unchanged(line);
    let ps = seq![cmd, b, c];
    assert(ps.drop_last() =~= seq![cmd, b]);
    assert(seq![cmd, b].drop_last() =~= seq![cmd]);
    assert(join_pieces(seq![cmd], '|') == cmd);
    assert(join_pieces(seq![cmd, b], '|') =~= cmd.push('|') + b);
    assert(join_pieces(ps, '|') =~= line);
    assert forall|i: int| 0 <= i < ps.len() implies !(#[trigger] ps[i]).contains('|') by {
        if i == 1 {
            assert(ps[i] == b);
        } else if i == 2 {
            assert(ps[i] == c);
        }
    }
    crate::text::lemma_split_join(ps, '|');
}

proof fn lemma_set_transfer_always_success_group(ps: Seq<Seq<char>>)
    requires
        ps.len() >= 1,
        ps[0] == "SET_TRANSFER_ALWAYS_SUCCESS"@,
    ensures
        client_request_of(ps) == match toggle_field(ps) {
            Ok(enabled) => Ok::<RequestView, BridgeError>(RequestView::SetTransferAlwaysSuccess { enabled }),
            Err(e) => Err(e),
        },
{
    reveal(client_request_of);
    reveal_strlit("PING");
    reveal_strlit("GET_ECONOMY");
    reveal_strlit("SET_ECONOMY");
    reveal_strlit("GET_PLAYERS");
    reveal_strlit("GET_STAFFS");
    reveal_strlit("GET_LEAGUES");
    reveal_strlit("GET_LEAGUE_COMPETITION");
    reveal_strlit("GET_TEAM_SCHEDULE");
    reveal_strlit("GET_TEAM_HISTORY");
    reveal_strlit("GET_TEAMS");
    reveal_strlit("GET_TEAM_STRATEGY_OPTIONS");
    reveal_strlit("GET_CONTRACT_DEFAULTS");
    reveal_strlit("GET_RECRUITMENT_SETTINGS");
    reveal_strlit("SET_TRANSFER_ALWAYS_SUCCESS");
    assert("PING"@.len() == 4 && "SET_TRANSFER_ALWAYS_SUCCESS"@.len() == 27);
    assert("GET_ECONOMY"@.len() == 11 && "SET_TRANSFER_ALWAYS_SUCCESS"@.len() == 27);
    assert("SET_ECONOMY"@.len() == 11 && "SET_TRANSFER_ALWAYS_SUCCESS"@.len() == 27);
    assert("GET_PLAYERS"@.len() == 11 && "SET_TRANSFER_ALWAYS_SUCCESS"@.len() == 27);
    assert("GET_STAFFS"@.len() == 10 && "SET_TRANSFER_ALWAYS_SUCCESS"@.len() == 27);
    assert("GET_LEAGUES"@.len() == 11 && "SET_TRANSFER_ALWAYS_SUCCESS"@.len() == 27);
    assert("GET_LEAGUE_COMPETITION"@.len() == 22 && "SET_TRANSFER_ALWAYS_SUCCESS"@.len() == 27);
    assert("GET_TEAM_SCHEDULE"@.len() == 17 && "SET_TRANSFER_ALWAYS_SUCCESS"@.len() == 27);
    assert("GET_TEAM_HISTORY"@.len() == 16 && "SET_TRANSFER_ALWAYS_SUCCESS"@.len() == 27);
    assert("GET_TEAMS"@.len() == 9 && "SET_TRANSFER_ALWAYS_SUCCESS"@.len() == 27);
    assert("GET_TEAM_STRATEGY_OPTIONS"@.len() == 25 && "SET_TRANSFER_ALWAYS_SUCCESS"@.len() == 27);
    assert("GET_CONTRACT_DEFAULTS"@.len() == 21 && "SET_TRANSFER_ALWAYS_SUCCESS"@.len() == 27);
    assert("GET_RECRUITMENT_SETTINGS"@.len() == 24 && "SET_TRANSFER_ALWAYS_SUCCESS"@.len() == 27);
}

proof fn lemma_set_recruitment_instant_retry_group(ps: Seq<Seq<char>>)
    requires
        ps.len() >= 1,
        ps[0] == "SET_RECRUITMENT_INSTANT_RETRY"@,
    ensures
        client_request_of(ps) == match toggle_field(ps) {
            Ok(enabled) => Ok::<RequestView, BridgeError>(RequestView::SetRecruitmentInstantRetry { enabled }),
            Err(e) => Err(e),
        },
{
    reveal(client_request_of);
    reveal_strlit("PING");
    reveal_strlit("GET_ECONOMY");
    reveal_strlit("SET_ECONOMY");
    reveal_strlit("GET_PLAYERS");
    reveal_strlit("GET_STAFFS");
    reveal_strlit("GET_LEAGUES");
    reveal_strlit("GET_LEAGUE_COMPETITION");
    reveal_strlit("GET_TEAM_SCHEDULE");
    reveal_strlit("GET_TEAM_HISTORY");
    reveal_strlit("GET_TEAMS");
    reveal_strlit("GET_TEAM_STRATEGY_OPTIONS");
    reveal_strlit("GET_CONTRACT_DEFAULTS");
    reveal_strlit("GET_RECRUITMENT_SETTINGS");
    reveal_strlit("SET_TRANSFER_ALWAYS_SUCCESS");
    reveal_strlit("SET_RECRUITMENT_INSTANT_RETRY");
    assert("PING"@.len() == 4 && "SET_RECRUITMENT_INSTANT_RETRY"@.len() == 29);
    assert("GET_ECONOMY"@.len() == 11 && "SET_RECRUITMENT_INSTANT_RETRY"@.len() == 29);
    assert("SET_ECONOMY"@.len() == 11 && "SET_RECRUITMENT_INSTANT_RETRY"@.len() == 29);
    assert("GET_PLAYERS"@.len() == 11 && "SET_RECRUITMENT_INSTANT_RETRY"@.len() == 29);
    assert("GET_STAFFS"@.len() == 10 && "SET_RECRUITMENT_INSTANT_RETRY"@.len() == 29);
    assert("GET_LEAGUES"@.len() == 11 && "SET_RECRUITMENT_INSTANT_RETRY"@.len() == 29);
    assert("GET_LEAGUE_COMPETITION"@.len() == 22 && "SET_RECRUITMENT_INSTANT_RETRY"@.len() == 29);
    assert("GET_TEAM_SCHEDULE"@.len() == 17 && "SET_RECRUITMENT_INSTANT_RETRY"@.len() == 29);
    assert("GET_TEAM_HISTORY"@.len() == 16 && "SET_RECRUITMENT_INSTANT_RETRY"@.len() == 29);
    assert("GET_TEAMS"@.len() == 9 && "SET_RECRUITMENT_INSTANT_RETRY"@.len() == 29);
    assert("GET_TEAM_STRATEGY_OPTIONS"@.len() == 25 && "SET_RECRUITMENT_INSTANT_RETRY"@.len() == 29);
    assert("GET_CONTRACT_DEFAULTS"@.len() == 21 && "SET_RECRUITMENT_INSTANT_RETRY"@.len() == 29);
    assert("GET_RECRUITMENT_SETTINGS"@.len() == 24 && "SET_RECRUITMENT_INSTANT_RETRY"@.len() == 29);
    assert("SET_TRANSFER_ALWAYS_SUCCESS"@.len() == 27 && "SET_RECRUITMENT_INSTANT_RETRY"@.len() == 29);
}

proof fn lemma_set_staff_salary_group(ps: Seq<Seq<char>>)
    requires
        ps.len() >= 1,
        ps[0] == "SET_STAFF_SALARY"@,
    ensures
        client_request_of(ps) == id_request(ps, |id: usize| RequestView::SetStaffSalary { staff_id: id, annual_salary: field_or_empty(ps, 2) }),
{
    reveal(client_request_of);
    reveal_strlit("PING");
    reveal_strlit("GET_ECONOMY");
    reveal_strlit("SET_ECONOMY");
    reveal_strlit("GET_PLAYERS");
    reveal_strlit("GET_STAFFS");
    reveal_strlit("GET_LEAGUES");
    reveal_strlit("GET_LEAGUE_COMPETITION");
    reveal_strlit("GET_TEAM_SCHEDULE");
    reveal_strlit("GET_TEAM_HISTORY");
    reveal_strlit("GET_TEAMS");
    reveal_strlit("GET_TEAM_STRATEGY_OPTIONS");
    reveal_strlit("GET_CONTRACT_DEFAULTS");
    reveal_strlit("GET_RECRUITMENT_SETTINGS");
    reveal_strlit("SET_TRANSFER_ALWAYS_SUCCESS");
    reveal_strlit("SET_RECRUITMENT_INSTANT_RETRY");
    reveal_strlit("GET_STAFF");
    reveal_strlit("GET_STAFF_CONTRACT_PROBE");
    reveal_strlit("SET_STAFF_NAME");
    reveal_strlit("SET_STAFF_STATS");
    reveal_strlit("SET_STAFF_SALARY");
    assert("PING"@.len() == 4 && "SET_STAFF_SALARY"@.len() == 16);
    assert("GET_ECONOMY"@.len() == 11 && "SET_STAFF_SALARY"@.len() == 16);
    assert("SET_ECONOMY"@.len() == 11 && "SET_STAFF_SALARY"@.len() == 16);
    assert("GET_PLAYERS"@.len() == 11 && "SET_STAFF_SALARY"@.len() == 16);
    assert("GET_STAFFS"@.len() == 10 && "SET_STAFF_SALARY"@.len() == 16);
    assert("GET_LEAGUES"@.len() == 11 && "SET_STAFF_SALARY"@.len() == 16);
    assert("GET_LEAGUE_COMPETITION"@.len() == 22 && "SET_STAFF_SALARY"@.len() == 16);
    assert("GET_TEAM_SCHEDULE"@.len() == 17 && "SET_STAFF_SALARY"@.len() == 16);
    assert("GET_TEAM_HISTORY"@[0] != "SET_STAFF_SALARY"@[0]);
    assert("GET_TEAMS"@.len() == 9 && "SET_STAFF_SALARY"@.len() == 16);
    assert("GET_TEAM_STRATEGY_OPTIONS"@.len() == 25 && "SET_STAFF_SALARY"@.len() == 16);
    assert("GET_CONTRACT_DEFAULTS"@.len() == 21 && "SET_STAFF_SALARY"@.len() == 16);
    assert("GET_RECRUITMENT_SETTINGS"@.len() == 24 && "SET_STAFF_SALARY"@.len() == 16);
    assert("SET_TRANSFER_ALWAYS_SUCCESS"@.len() == 27 && "SET_STAFF_SALARY"@.len() == 16);
    assert("SET_RECRUITMENT_INSTANT_RETRY"@.len() == 29 && "SET_STAFF_SALARY"@.len() == 16);
    assert("GET_STAFF"@.len() == 9 && "SET_STAFF_SALARY"@.len() == 16);
    assert("GET_STAFF_CONTRACT_PROBE"@.len() == 24 && "SET_STAFF_SALARY"@.len() == 16);
    assert("SET_STAFF_NAME"@.len() == 14 && "SET_STAFF_SALARY"@.len() == 16);
    assert("SET_STAFF_STATS"@.len() == 15 && "SET_STAFF_SALARY"@.len() == 16);
    lemma_general_request_none(ps);
}

proof fn lemma_set_player_salary_group(ps: Seq<Seq<char>>)
    requires
        ps.len() >= 1,
        ps[0] == "SET_PLAYER_SALARY"@,
    ensures
        client_request_of(ps) == id_request(ps, |id: usize| RequestView::SetPlayerSalary { athlete_id: id, annual_salary: field_or_empty(ps, 2) }),
{
    reveal(client_request_of);
    reveal_strlit("PING");
    reveal_strlit("GET_ECONOMY");
    reveal_strlit("SET_ECONOMY");
    reveal_strlit("GET_PLAYERS");
    reveal_strlit("GET_STAFFS");
    reveal_strlit("GET_LEAGUES");
    reveal_strlit("GET_LEAGUE_COMPETITION");
    reveal_strlit("GET_TEAM_SCHEDULE");
    reveal_strlit("GET_TEAM_HISTORY");
    reveal_strlit("GET_TEAMS");
    reveal_strlit("GET_TEAM_STRATEGY_OPTIONS");
    reveal_strlit("GET_CONTRACT_DEFAULTS");
    reveal_strlit("GET_RECRUITMENT_SETTINGS");
    reveal_strlit("SET_TRANSFER_ALWAYS_SUCCESS");
    reveal_strlit("SET_RECRUITMENT_INSTANT_RETRY");
    reveal_strlit("GET_STAFF");
    reveal_strlit("GET_STAFF_CONTRACT_PROBE");
    reveal_strlit("SET_STAFF_NAME");
    reveal_strlit("SET_STAFF_STATS");
    reveal_strlit("SET_STAFF_SALARY");
    reveal_strlit("SET_STAFF_CONTRACT_END");
    reveal_strlit("SET_STAFF_CONTRACT");
    reveal_strlit("SET_STAFF_COMMUNICATION");
    reveal_strlit("MOVE_STAFF_TO_TEAM");
    reveal_strlit("SET_STAFF_FREE_AGENT");
    reveal_strlit("GET_TEAM_PROBE");
    reveal_strlit("GET_TEAM_MANAGEMENT");
    reveal_strlit("SET_TEAM_MERCHANDISE");
    reveal_strlit("SET_TEAM_FANS");
    reveal_strlit("GET_TEAM_FAN_MOMENTUM_PROBE");
    reveal_strlit("GET_TEAM_REPLAY_STRATEGIES");
    reveal_strlit("PROBE_SWAP_TEAM_STRATEGY");
    reveal_strlit("SET_TEAM_STRATEGY");
    reveal_strlit("MOVE_PLAYER_TO_TEAM");
    reveal_strlit("SET_PLAYER_FREE_AGENT");
    reveal_strlit("GET_PLAYER");
    reveal_strlit("GET_PLAYER_CONTRACT_PROBE");
    reveal_strlit("SET_PLAYER_NAME");
    reveal_strlit("SET_PLAYER_CONDITION");
    reveal_strlit("GET_CHAMPION_MASTERY_PROBE");
    reveal_strlit("SET_CHAMPION_MASTERY");
    reveal_strlit("SET_PLAYER_COMMUNICATION_MAX");
    reveal_strlit("SET_PLAYER_STATS");
    reveal_strlit("SET_PLAYER_POSITIONS");
    reveal_strlit("SET_PLAYER_POTENTIAL");
    reveal_strlit("SET_PLAYER_SALARY");
    assert("PING"@.len() == 4 && "SET_PLAYER_SALARY"@.len() == 17);
    assert("GET_ECONOMY"@.len() == 11 && "SET_PLAYER_SALARY"@.len() == 17);
    assert("SET_ECONOMY"@.len() == 11 && "SET_PLAYER_SALARY"@.len() == 17);
    assert("GET_PLAYERS"@.len() == 11 && "SET_PLAYER_SALARY"@.len() == 17);
    assert("GET_STAFFS"@.len() == 10 && "SET_PLAYER_SALARY"@.len() == 17);
    assert("GET_LEAGUES"@.len() == 11 && "SET_PLAYER_SALARY"@.len() == 17);
    assert("GET_LEAGUE_COMPETITION"@.len() == 22 && "SET_PLAYER_SALARY"@.len() == 17);
    assert("GET_TEAM_SCHEDULE"@[0] != "SET_PLAYER_SALARY"@[0]);
    assert("GET_TEAM_HISTORY"@.len() == 16 && "SET_PLAYER_SALARY"@.len() == 17);
    assert("GET_TEAMS"@.len() == 9 && "SET_PLAYER_SALARY"@.len() == 17);
    assert("GET_TEAM_STRATEGY_OPTIONS"@.len() == 25 && "SET_PLAYER_SALARY"@.len() == 17);
    assert("GET_CONTRACT_DEFAULTS"@.len() == 21 && "SET_PLAYER_SALARY"@.len() == 17);
    assert("GET_RECRUITMENT_SETTINGS"@.len() == 24 && "SET_PLAYER_SALARY"@.len() == 17);
    assert("SET_TRANSFER_ALWAYS_SUCCESS"@.len() == 27 && "SET_PLAYER_SALARY"@.len() == 17);
    assert("SET_RECRUITMENT_INSTANT_RETRY"@.len() == 29 && "SET_PLAYER_SALARY"@.len() == 17);
    assert("GET_STAFF"@.len() == 9 && "SET_PLAYER_SALARY"@.len() == 17);
    assert("GET_STAFF_CONTRACT_PROBE"@.len() == 24 && "SET_PLAYER_SALARY"@.len() == 17);
    assert("SET_STAFF_NAME"@.len() == 14 && "SET_PLAYER_SALARY"@.len() == 17);
    assert("SET_STAFF_STATS"@.len() == 15 && "SET_PLAYER_SALARY"@.len() == 17);
    assert("SET_STAFF_SALARY"@.len() == 16 && "SET_PLAYER_SALARY"@.len() == 17);
    assert("SET_STAFF_CONTRACT_END"@.len() == 22 && "SET_PLAYER_SALARY"@.len() == 17);
    assert("SET_STAFF_CONTRACT"@.len() == 18 && "SET_PLAYER_SALARY"@.len() == 17);
    assert("SET_STAFF_COMMUNICATION"@.len() == 23 && "SET_PLAYER_SALARY"@.len() == 17);
    assert("MOVE_STAFF_TO_TEAM"@.len() == 18 && "SET_PLAYER_SALARY"@.len() == 17);
    assert("SET_STAFF_FREE_AGENT"@.len() == 20 && "SET_PLAYER_SALARY"@.len() == 17);
    assert("GET_TEAM_PROBE"@.len() == 14 && "SET_PLAYER_SALARY"@.len() == 17);
    assert("GET_TEAM_MANAGEMENT"@.len() == 19 && "SET_PLAYER_SALARY"@.len() == 17);
    assert("SET_TEAM_MERCHANDISE"@.len() == 20 && "SET_PLAYER_SALARY"@.len() == 17);
    assert("SET_TEAM_FANS"@.len() == 13 && "SET_PLAYER_SALARY"@.len() == 17);
    assert("GET_TEAM_FAN_MOMENTUM_PROBE"@.len() == 27 && "SET_PLAYER_SALARY"@.len() == 17);
    assert("GET_TEAM_REPLAY_STRATEGIES"@.len() == 26 && "SET_PLAYER_SALARY"@.len() == 17);
    assert("PROBE_SWAP_TEAM_STRATEGY"@.len() == 24 && "SET_PLAYER_SALARY"@.len() == 17);
    assert("SET_TEAM_STRATEGY"@[4] != "SET_PLAYER_SALARY"@[4]);
    assert("MOVE_PLAYER_TO_TEAM"@.len() == 19 && "SET_PLAYER_SALARY"@.len() == 17);
    assert("SET_PLAYER_FREE_AGENT"@.len() == 21 && "SET_PLAYER_SALARY"@.len() == 17);
    assert("GET_PLAYER"@.len() == 10 && "SET_PLAYER_SALARY"@.len() == 17);
    assert("GET_PLAYER_CONTRACT_PROBE"@.len() == 25 && "SET_PLAYER_SALARY"@.len() == 17);
    assert("SET_PLAYER_NAME"@.len() == 15 && "SET_PLAYER_SALARY"@.len() == 17);
    assert("SET_PLAYER_CONDITION"@.len() == 20 && "SET_PLAYER_SALARY"@.len() == 17);
    assert("GET_CHAMPION_MASTERY_PROBE"@.len() == 26 && "SET_PLAYER_SALARY"@.len() == 17);
    assert("SET_CHAMPION_MASTERY"@.len() == 20 && "SET_PLAYER_SALARY"@.len() == 17);
    assert("SET_PLAYER_COMMUNICATION_MAX"@.len() == 28 && "SET_PLAYER_SALARY"@.len() == 17);
    assert("SET_PLAYER_STATS"@.len() == 16 && "SET_PLAYER_SALARY"@.len() == 17);
    assert("SET_PLAYER_POSITIONS"@.len() == 20 && "SET_PLAYER_SALARY"@.len() == 17);
    assert("SET_PLAYER_POTENTIAL"@.len() == 20 && "SET_PLAYER_SALARY"@.len() == 17);
    lemma_general_request_none(ps);
    lemma_staff_request_none(ps);
    lemma_team_request_none(ps);
    lemma_player_request_none(ps);
}

proof fn lemma_move_player_to_team_group(ps: Seq<Seq<char>>)
    requires
        ps.len() >= 1,
        ps[0] == "MOVE_PLAYER_TO_TEAM"@,
    ensures
        Some(client_request_of(ps)) == player_request(ps),
{
    reveal(client_request_of);
    reveal_strlit("PING");
    reveal_strlit("GET_ECONOMY");
    reveal_strlit("SET_ECONOMY");
    reveal_strlit("GET_PLAYERS");
    reveal_strlit("GET_STAFFS");
    reveal_strlit("GET_LEAGUES");
    reveal_strlit("GET_LEAGUE_COMPETITION");
    reveal_strlit("GET_TEAM_SCHEDULE");
    reveal_strlit("GET_TEAM_HISTORY");
    reveal_strlit("GET_TEAMS");
    reveal_strlit("GET_TEAM_STRATEGY_OPTIONS");
    reveal_strlit("GET_CONTRACT_DEFAULTS");
    reveal_strlit("GET_RECRUITMENT_SETTINGS");
    reveal_strlit("SET_TRANSFER_ALWAYS_SUCCESS");
    reveal_strlit("SET_RECRUITMENT_INSTANT_RETRY");
    reveal_strlit("GET_STAFF");
    reveal_strlit("GET_STAFF_CONTRACT_PROBE");
    reveal_strlit("SET_STAFF_NAME");
    reveal_strlit("SET_STAFF_STATS");
    reveal_strlit("SET_STAFF_SALARY");
    reveal_strlit("SET_STAFF_CONTRACT_END");
    reveal_strlit("SET_STAFF_CONTRACT");
    reveal_strlit("SET_STAFF_COMMUNICATION");
    reveal_strlit("MOVE_STAFF_TO_TEAM");
    reveal_strlit("SET_STAFF_FREE_AGENT");
    reveal_strlit("GET_TEAM_PROBE");
    reveal_strlit("GET_TEAM_MANAGEMENT");
    reveal_strlit("SET_TEAM_MERCHANDISE");
    reveal_strlit("SET_TEAM_FANS");
    reveal_strlit("GET_TEAM_FAN_MOMENTUM_PROBE");
    reveal_strlit("GET_TEAM_REPLAY_STRATEGIES");
    reveal_strlit("PROBE_SWAP_TEAM_STRATEGY");
    reveal_strlit("SET_TEAM_STRATEGY");
    reveal_strlit("MOVE_PLAYER_TO_TEAM");
    assert("PING"@.len() == 4 && "MOVE_PLAYER_TO_TEAM"@.len() == 19);
    assert("GET_ECONOMY"@.len() == 11 && "MOVE_PLAYER_TO_TEAM"@.len() == 19);
    assert("SET_ECONOMY"@.len() == 11 && "MOVE_PLAYER_TO_TEAM"@.len() == 19);
    assert("GET_PLAYERS"@.len() == 11 && "MOVE_PLAYER_TO_TEAM"@.len() == 19);
    assert("GET_STAFFS"@.len() == 10 && "MOVE_PLAYER_TO_TEAM"@.len() == 19);
    assert("GET_LEAGUES"@.len() == 11 && "MOVE_PLAYER_TO_TEAM"@.len() == 19);
    assert("GET_LEAGUE_COMPETITION"@.len() == 22 && "MOVE_PLAYER_TO_TEAM"@.len() == 19);
    assert("GET_TEAM_SCHEDULE"@.len() == 17 && "MOVE_PLAYER_TO_TEAM"@.len() == 19);
    assert("GET_TEAM_HISTORY"@.len() == 16 && "MOVE_PLAYER_TO_TEAM"@.len() == 19);
    assert("GET_TEAMS"@.len() == 9 && "MOVE_PLAYER_TO_TEAM"@.len() == 19);
    assert("GET_TEAM_STRATEGY_OPTIONS"@.len() == 25 && "MOVE_PLAYER_TO_TEAM"@.len() == 19);
    assert("GET_CONTRACT_DEFAULTS"@.len() == 21 && "MOVE_PLAYER_TO_TEAM"@.len() == 19);
    assert("GET_RECRUITMENT_SETTINGS"@.len() == 24 && "MOVE_PLAYER_TO_TEAM"@.len() == 19);
    assert("SET_TRANSFER_ALWAYS_SUCCESS"@.len() == 27 && "MOVE_PLAYER_TO_TEAM"@.len() == 19);
    assert("SET_RECRUITMENT_INSTANT_RETRY"@.len() == 29 && "MOVE_PLAYER_TO_TEAM"@.len() == 19);
    assert("GET_STAFF"@.len() == 9 && "MOVE_PLAYER_TO_TEAM"@.len() == 19);
    assert("GET_STAFF_CONTRACT_PROBE"@.len() == 24 && "MOVE_PLAYER_TO_TEAM"@.len() == 19);
    assert("SET_STAFF_NAME"@.len() == 14 && "MOVE_PLAYER_TO_TEAM"@.len() == 19);
    assert("SET_STAFF_STATS"@.len() == 15 && "MOVE_PLAYER_TO_TEAM"@.len() == 19);
    assert("SET_STAFF_SALARY"@.len() == 16 && "MOVE_PLAYER_TO_TEAM"@.len() == 19);
    assert("SET_STAFF_CONTRACT_END"@.len() == 22 && "MOVE_PLAYER_TO_TEAM"@.len() == 19);
    assert("SET_STAFF_CONTRACT"@.len() == 18 && "MOVE_PLAYER_TO_TEAM"@.len() == 19);
    assert("SET_STAFF_COMMUNICATION"@.len() == 23 && "MOVE_PLAYER_TO_TEAM"@.len() == 19);
    assert("MOVE_STAFF_TO_TEAM"@.len() == 18 && "MOVE_PLAYER_TO_TEAM"@.len() == 19);
    assert("SET_STAFF_FREE_AGENT"@.len() == 20 && "MOVE_PLAYER_TO_TEAM"@.len() == 19);
    assert("GET_TEAM_PROBE"@.len() == 14 && "MOVE_PLAYER_TO_TEAM"@.len() == 19);
    assert("GET_TEAM_MANAGEMENT"@[0] != "MOVE_PLAYER_TO_TEAM"@[0]);
    assert("SET_TEAM_MERCHANDISE"@.len() == 20 && "MOVE_PLAYER_TO_TEAM"@.len() == 19);
    assert("SET_TEAM_FANS"@.len() == 13 && "MOVE_PLAYER_TO_TEAM"@.len() == 19);
    assert("GET_TEAM_FAN_MOMENTUM_PROBE"@.len() == 27 && "MOVE_PLAYER_TO_TEAM"@.len() == 19);
    assert("GET_TEAM_REPLAY_STRATEGIES"@.len() == 26 && "MOVE_PLAYER_TO_TEAM"@.len() == 19);
    assert("PROBE_SWAP_TEAM_STRATEGY"@.len() == 24 && "MOVE_PLAYER_TO_TEAM"@.len() == 19);
    assert("SET_TEAM_STRATEGY"@.len() == 17 && "MOVE_PLAYER_TO_TEAM"@.len() == 19);
    lemma_general_request_none(ps);
    lemma_staff_request_none(ps);
    lemma_team_request_none(ps);
}

proof fn lemma_line_set_transfer_always_success(on: bool)
    ensures
        client_request("SET_TRANSFER_ALWAYS_SUCCESS|"@ + (if on { "1"@ } else { "0"@ })) == Ok::<RequestView, BridgeError>(
            RequestView::SetTransferAlwaysSuccess { enabled: on },
        ),
{
    let cmd = "SET_TRANSFER_ALWAYS_SUCCESS"@;
    assert(cmd.len() > 0 && !crate::text::is_white_space(cmd[0]) && !cmd.contains('|')) by {
        reveal_strlit("SET_TRANSFER_ALWAYS_SUCCESS");
    }
    assert("SET_TRANSFER_ALWAYS_SUCCESS|"@ =~= cmd.push('|')) by {
        reveal_strlit("SET_TRANSFER_ALWAYS_SUCCESS|");
        reveal_strlit("SET_TRANSFER_ALWAYS_SUCCESS");
    }
    reveal_strlit("1");
    reveal_strlit("0");
    let flag = if on { "1"@ } else { "0"@ };
    lemma_two_fields(cmd, flag);
    let ps = seq![cmd, flag];
    assert(request_fields("SET_TRANSFER_ALWAYS_SUCCESS|"@ + flag) == ps);
    lemma_set_transfer_always_success_group(ps);
}

proof fn lemma_line_set_recruitment_instant_retry(on: bool)
    ensures
        client_request("SET_RECRUITMENT_INSTANT_RETRY|"@ + (if on { "1"@ } else { "0"@ })) == Ok::<RequestView, BridgeError>(
            RequestView::SetRecruitmentInstantRetry { enabled: on },
        ),
{
    let cmd = "SET_RECRUITMENT_INSTANT_RETRY"@;
    assert(cmd.len() > 0 && !crate::text::is_white_space(cmd[0]) && !cmd.contains('|')) by {
        reveal_strlit("SET_RECRUITMENT_INSTANT_RETRY");
    }
    assert("SET_RECRUITMENT_INSTANT_RETRY|"@ =~= cmd.push('|')) by {
        reveal_strlit("SET_RECRUITMENT_INSTANT_RETRY|");
        reveal_strlit("SET_RECRUITMENT_INSTANT_RETRY");
    }
    reveal_strlit("1");
    reveal_strlit("0");
    let flag = if on { "1"@ } else { "0"@ };
    lemma_two_fields(cmd, flag);
    let ps = seq![cmd, flag];
    assert(request_fields("SET_RECRUITMENT_INSTANT_RETRY|"@ + flag) == ps);
    lemma_set_recruitment_instant_retry_group(ps);
}

proof fn lemma_line_set_staff_salary(n: usize, amount: Seq<char>)
    requires
        plain_field(amount),
    ensures
        client_request("SET_STAFF_SALARY|"@ + decimal_text(n as nat) + "|"@ + amount) == Ok::<RequestView, BridgeError>(
            RequestView::SetStaffSalary { staff_id: n, annual_salary: amount },
        ),
{
    let cmd = "SET_STAFF_SALARY"@;
    assert(cmd.len() > 0 && !crate::text::is_white_space(cmd[0]) && !cmd.contains('|')) by {
        reveal_strlit("SET_STAFF_SALARY");
    }
    assert("SET_STAFF_SALARY|"@ =~= cmd.push('|')) by {
        reveal_strlit("SET_STAFF_SALARY|");
        reveal_strlit("SET_STAFF_SALARY");
    }
    crate::wire::lemma_id_text(n);
    let d = decimal_text(n as nat);
    lemma_three_fields(cmd, d, amount);
    let ps = seq![cmd, d, amount];
    assert(request_fields("SET_STAFF_SALARY|"@ + d + "|"@ + amount) == ps);
    lemma_set_staff_salary_group(ps);
}

proof fn lemma_line_set_player_salary(n: usize, amount: Seq<char>)
    requires
        plain_field(amount),
    ensures
        client_request("SET_PLAYER_SALARY|"@ + decimal_text(n as nat) + "|"@ + amount) == Ok::<RequestView, BridgeError>(
            RequestView::SetPlayerSalary { athlete_id: n, annual_salary: amount },
        ),
{
    let cmd = "SET_PLAYER_SALARY"@;
    assert(cmd.len() > 0 && !crate::text::is_white_space(cmd[0]) && !cmd.contains('|')) by {
        reveal_strlit("SET_PLAYER_SALARY");
    }
    assert("SET_PLAYER_SALARY|"@ =~= cmd.push('|')) by {
        reveal_strlit("SET_PLAYER_SALARY|");
        reveal_strlit("SET_PLAYER_SALARY");
    }
    crate::wire::lemma_id_text(n);
    let d = decimal_text(n as nat);
    lemma_three_fields(cmd, d, amount);
    let ps = seq![cmd, d, amount];
    assert(request_fields("SET_PLAYER_SALARY|"@ + d + "|"@ + amount) == ps);
    lemma_set_player_salary_group(ps);
}

proof fn lemma_line_move_player_to_team(player: usize, team: usize)
    ensures
        client_request("MOVE_PLAYER_TO_TEAM|"@ + decimal_text(player as nat) + "|"@ + decimal_text(team as nat))
            == Ok::<RequestView, BridgeError>(RequestView::MovePlayerToTeam { athlete_id: player, team_id: team }),
{
    let cmd = "MOVE_PLAYER_TO_TEAM"@;
    assert(cmd.len() > 0 && !crate::text::is_white_space(cmd[0]) && !cmd.contains('|')) by {
        reveal_strlit("MOVE_PLAYER_TO_TEAM");
    }
    assert("MOVE_PLAYER_TO_TEAM|"@ =~= cmd.push('|')) by {
        reveal_strlit("MOVE_PLAYER_TO_TEAM|");
        reveal_strlit("MOVE_PLAYER_TO_TEAM");
    }
    crate::wire::lemma_id_text(player);
    crate::wire::lemma_id_text(team);
    let d = decimal_text(player as nat);
    let e = decimal_text(team as nat);
    crate::text::lemma_decimal_text(team as nat);
    assert(crate::text::is_digit(e[e.len() - 1]));
    lemma_three_fields(cmd, d, e);
    let ps = seq![cmd, d, e];
    assert(request_fields("MOVE_PLAYER_TO_TEAM|"@ + d + "|"@ + e) == ps);
    lemma_move_player_to_team_group(ps);
}

/// The commands that carry values after the id: a toggle line ending in
/// `1` turns its setting on and one ending in `0` turns it off; a salary
/// line carries its id and the amount text as written; a move line carries
/// the player first and the team second.
pub proof fn lemma_argument_command_requests(n: usize, team: usize, amount: Seq<char>, on: bool)
    requires
        plain_field(amount),
    ensures
        client_request("SET_TRANSFER_ALWAYS_SUCCESS|"@ + (if on { "1"@ } else { "0"@ })) == Ok::<RequestView, BridgeError>(
            RequestView::SetTransferAlwaysSuccess { enabled: on },
        ),
        client_request("SET_RECRUITMENT_INSTANT_RETRY|"@ + (if on { "1"@ } else { "0"@ })) == Ok::<RequestView, BridgeError>(
            RequestView::SetRecruitmentInstantRetry { enabled: on },
        ),
        client_request("SET_STAFF_SALARY|"@ + decimal_text(n as nat) + "|"@ + amount) == Ok::<RequestView, BridgeError>(
            RequestView::SetStaffSalary { staff_id: n, annual_salary: amount },
        ),
        client_request("SET_PLAYER_SALARY|"@ + decimal_text(n as nat) + "|"@ + amount) == Ok::<RequestView, BridgeError>(
            RequestView::SetPlayerSalary { athlete_id: n, annual_salary: amount },
        ),
        client_request("MOVE_PLAYER_TO_TEAM|"@ + decimal_text(n as nat) + "|"@ + decimal_text(team as nat))
            == Ok::<RequestView, BridgeError>(RequestView::MovePlayerToTeam { athlete_id: n, team_id: team }),
{
    lemma_line_set_transfer_always_success(on);
    lemma_line_set_recruitment_instant_retry(on);
    lemma_line_set_staff_salary(n, amount);
    lemma_line_set_player_salary(n, amount);
    lemma_line_move_player_to_team(n, team);
}

/// A command name and three fields, each after a `|`, read as the four
/// fields.
proof fn lemma_four_fields(cmd: Seq<char>, b: Seq<char>, c: Seq<char>, d: Seq<char>)
    requires
        cmd.len() > 0,
        !crate::text::is_white_space(cmd[0]),
        !cmd.contains('|'),
        !b.contains('|'),
        !c.contains('|'),
        plain_field(d),
    ensures
        request_fields(cmd.push('|') + b + "|"@ + c + "|"@ + d) == seq![cmd, b, c, d],
{
    reveal_strlit("|");
    let line = cmd.push('|') + b + "|"@ + c + "|"@ + d;
    assert(line[0] == cmd[0]);
    if d.len() > 0 {
        assert(line[line.len() - 1] == d[d.len() - 1]);
    } else {
        assert(line[line.len() - 1] == '|');
    }
    crate::text::lemma_trimmed_unchanged(line);
    let ps = seq![cmd, b, c, d];
    assert(ps.drop_last() =~= seq![cmd, b, c]);
    assert(seq![cmd, b, c].drop_last() =~= seq![cmd, b]);
    assert(seq![cmd, b].drop_last() =~= seq![cmd]);
    assert(join_pieces(seq![cmd], '|') == cmd);
    assert(join_pieces(seq![cmd, b], '|') =~= cmd.push('|') + b);
    assert(join_pieces(seq![cmd, b, c], '|') =~= cmd.push('|') + b + "|"@ + c);
    assert(join_pieces(ps, '|') =~= line);
    assert forall|i: int| 0 <= i < ps.len() implies !(#[trigger] ps[i]).contains('|') by {
        if i == 1 {
            assert(ps[i] == b);
        } else if i == 2 {
            assert(ps[i] == c);
        } else if i == 3 {
            assert(ps[i] == d);
        }
    }
    crate::text::lemma_split_join(ps, '|');
}

proof fn lemma_set_economy_group(ps: Seq<Seq<char>>)
    requires
        ps.len() >= 1,
        ps[0] == "SET_ECONOMY"@,
    ensures
        client_request_of(ps) == Ok::<RequestView, BridgeError>(
            RequestView::SetEconomy {
                money: field_option(ps, 1),
                transfer_budget: field_option(ps, 2),
                salary_budget: field_option(ps, 3),
            },
        ),
{
    reveal(client_request_of);
    reveal_strlit("PING");
    reveal_strlit("GET_ECONOMY");
    reveal_strlit("SET_ECONOMY");
    assert("PING"@.len() == 4 && "SET_ECONOMY"@.len() == 11);
    assert("GET_ECONOMY"@[0] != "SET_ECONOMY"@[0]);
}

proof fn lemma_set_player_condition_group(ps: Seq<Seq<char>>)
    requires
        ps.len() >= 1,
        ps[0] == "SET_PLAYER_CONDITION"@,
    ensures
        client_request_of(ps) == match (usize_field(ps, 1), text_field(ps, 2), text_field(ps, 3)) {
            (Err(e), _, _) => Err(e),
            (_, Err(e), _) => Err(e),
            (_, _, Err(e)) => Err(e),
            (Ok(athlete_id), Ok(stamina), Ok(condition)) => Ok::<RequestView, BridgeError>(
                RequestView::SetPlayerCondition { athlete_id, stamina, condition },
            ),
        },
{
    reveal(client_request_of);
    reveal_strlit("PING");
    reveal_strlit("GET_ECONOMY");
    reveal_strlit("SET_ECONOMY");
    reveal_strlit("GET_PLAYERS");
    reveal_strlit("GET_STAFFS");
    reveal_strlit("GET_LEAGUES");
    reveal_strlit("GET_LEAGUE_COMPETITION");
    reveal_strlit("GET_TEAM_SCHEDULE");
    reveal_strlit("GET_TEAM_HISTORY");
    reveal_strlit("GET_TEAMS");
    reveal_strlit("GET_TEAM_STRATEGY_OPTIONS");
    reveal_strlit("GET_CONTRACT_DEFAULTS");
    reveal_strlit("GET_RECRUITMENT_SETTINGS");
    reveal_strlit("SET_TRANSFER_ALWAYS_SUCCESS");
    reveal_strlit("SET_RECRUITMENT_INSTANT_RETRY");
    reveal_strlit("GET_STAFF");
    reveal_strlit("GET_STAFF_CONTRACT_PROBE");
    reveal_strlit("SET_STAFF_NAME");
    reveal_strlit("SET_STAFF_STATS");
    reveal_strlit("SET_STAFF_SALARY");
    reveal_strlit("SET_STAFF_CONTRACT_END");
    reveal_strlit("SET_STAFF_CONTRACT");
    reveal_strlit("SET_STAFF_COMMUNICATION");
    reveal_strlit("MOVE_STAFF_TO_TEAM");
    reveal_strlit("SET_STAFF_FREE_AGENT");
    reveal_strlit("GET_TEAM_PROBE");
    reveal_strlit("GET_TEAM_MANAGEMENT");
    reveal_strlit("SET_TEAM_MERCHANDISE");
    reveal_strlit("SET_TEAM_FANS");
    reveal_strlit("GET_TEAM_FAN_MOMENTUM_PROBE");
    reveal_strlit("GET_TEAM_REPLAY_STRATEGIES");
    reveal_strlit("PROBE_SWAP_TEAM_STRATEGY");
    reveal_strlit("SET_TEAM_STRATEGY");
    reveal_strlit("MOVE_PLAYER_TO_TEAM");
    reveal_strlit("SET_PLAYER_FREE_AGENT");
    reveal_strlit("GET_PLAYER");
    reveal_strlit("GET_PLAYER_CONTRACT_PROBE");
    reveal_strlit("SET_PLAYER_NAME");
    reveal_strlit("SET_PLAYER_CONDITION");
    assert("PING"@.len() == 4 && "SET_PLAYER_CONDITION"@.len() == 20);
    assert("GET_ECONOMY"@.len() == 11 && "SET_PLAYER_CONDITION"@.len() == 20);
    assert("SET_ECONOMY"@.len() == 11 && "SET_PLAYER_CONDITION"@.len() == 20);
    assert("GET_PLAYERS"@.len() == 11 && "SET_PLAYER_CONDITION"@.len() == 20);
    assert("GET_STAFFS"@.len() == 10 && "SET_PLAYER_CONDITION"@.len() == 20);
    assert("GET_LEAGUES"@.len() == 11 && "SET_PLAYER_CONDITION"@.len() == 20);
    assert("GET_LEAGUE_COMPETITION"@.len() == 22 && "SET_PLAYER_CONDITION"@.len() == 20);
    assert("GET_TEAM_SCHEDULE"@.len() == 17 && "SET_PLAYER_CONDITION"@.len() == 20);
    assert("GET_TEAM_HISTORY"@.len() == 16 && "SET_PLAYER_CONDITION"@.len() == 20);
    assert("GET_TEAMS"@.len() == 9 && "SET_PLAYER_CONDITION"@.len() == 20);
    assert("GET_TEAM_STRATEGY_OPTIONS"@.len() == 25 && "SET_PLAYER_CONDITION"@.len() == 20);
    assert("GET_CONTRACT_DEFAULTS"@.len() == 21 && "SET_PLAYER_CONDITION"@.len() == 20);
    assert("GET_RECRUITMENT_SETTINGS"@.len() == 24 && "SET_PLAYER_CONDITION"@.len() == 20);
    assert("SET_TRANSFER_ALWAYS_SUCCESS"@.len() == 27 && "SET_PLAYER_CONDITION"@.len() == 20);
    assert("SET_RECRUITMENT_INSTANT_RETRY"@.len() == 29 && "SET_PLAYER_CONDITION"@.len() == 20);
    assert("GET_STAFF"@.len() == 9 && "SET_PLAYER_CONDITION"@.len() == 20);
    assert("GET_STAFF_CONTRACT_PROBE"@.len() == 24 && "SET_PLAYER_CONDITION"@.len() == 20);
    assert("SET_STAFF_NAME"@.len() == 14 && "SET_PLAYER_CONDITION"@.len() == 20);
    assert("SET_STAFF_STATS"@.len() == 15 && "SET_PLAYER_CONDITION"@.len() == 20);
    assert("SET_STAFF_SALARY"@.len() == 16 && "SET_PLAYER_CONDITION"@.len() == 20);
    assert("SET_STAFF_CONTRACT_END"@.len() == 22 && "SET_PLAYER_CONDITION"@.len() == 20);
    assert("SET_STAFF_CONTRACT"@.len() == 18 && "SET_PLAYER_CONDITION"@.len() == 20);
    assert("SET_STAFF_COMMUNICATION"@.len() == 23 && "SET_PLAYER_CONDITION"@.len() == 20);
    assert("MOVE_STAFF_TO_TEAM"@.len() == 18 && "SET_PLAYER_CONDITION"@.len() == 20);
    assert("SET_STAFF_FREE_AGENT"@[4] != "SET_PLAYER_CONDITION"@[4]);
    assert("GET_TEAM_PROBE"@.len() == 14 && "SET_PLAYER_CONDITION"@.len() == 20);
    assert("GET_TEAM_MANAGEMENT"@.len() == 19 && "SET_PLAYER_CONDITION"@.len() == 20);
    assert("SET_TEAM_MERCHANDISE"@[4] != "SET_PLAYER_CONDITION"@[4]);
    assert("SET_TEAM_FANS"@.len() == 13 && "SET_PLAYER_CONDITION"@.len() == 20);
    assert("GET_TEAM_FAN_MOMENTUM_PROBE"@.len() == 27 && "SET_PLAYER_CONDITION"@.len() == 20);
    assert("GET_TEAM_REPLAY_STRATEGIES"@.len() == 26 && "SET_PLAYER_CONDITION"@.len() == 20);
    assert("PROBE_SWAP_TEAM_STRATEGY"@.len() == 24 && "SET_PLAYER_CONDITION"@.len() == 20);
    assert("SET_TEAM_STRATEGY"@.len() == 17 && "SET_PLAYER_CONDITION"@.len() == 20);
    assert("MOVE_PLAYER_TO_TEAM"@.len() == 19 && "SET_PLAYER_CONDITION"@.len() == 20);
    assert("SET_PLAYER_FREE_AGENT"@.len() == 21 && "SET_PLAYER_CONDITION"@.len() == 20);
    assert("GET_PLAYER"@.len() == 10 && "SET_PLAYER_CONDITION"@.len() == 20);
    assert("GET_PLAYER_CONTRACT_PROBE"@.len() == 25 && "SET_PLAYER_CONDITION"@.len() == 20);
    assert("SET_PLAYER_NAME"@.len() == 15 && "SET_PLAYER_CONDITION"@.len() == 20);
    lemma_general_request_none(ps);
    lemma_staff_request_none(ps);
    lemma_team_request_none(ps);
}

proof fn lemma_line_set_economy(money: Seq<char>, transfer_budget: Seq<char>, salary_budget: Seq<char>)
    requires
        !money.contains('|'),
        !transfer_budget.contains('|'),
        plain_field(salary_budget),
    ensures
        client_request("SET_ECONOMY|"@ + money + "|"@ + transfer_budget + "|"@ + salary_budget) == Ok::<RequestView, BridgeError>(
            RequestView::SetEconomy {
                money: Some(money),
                transfer_budget: Some(transfer_budget),
                salary_budget: Some(salary_budget),
            },
        ),
{
    let cmd = "SET_ECONOMY"@;
    assert(cmd.len() > 0 && !crate::text::is_white_space(cmd[0]) && !cmd.contains('|')) by {
        reveal_strlit("SET_ECONOMY");
    }
    assert("SET_ECONOMY|"@ =~= cmd.push('|')) by {
        reveal_strlit("SET_ECONOMY|");
        reveal_strlit("SET_ECONOMY");
    }
    lemma_four_fields(cmd, money, transfer_budget, salary_budget);
    let ps = seq![cmd, money, transfer_budget, salary_budget];
    assert(request_fields("SET_ECONOMY|"@ + money + "|"@ + transfer_budget + "|"@ + salary_budget) == ps);
    lemma_set_economy_group(ps);
}

proof fn lemma_line_set_player_condition(n: usize, stamina: Seq<char>, condition: Seq<char>)
    requires
        !stamina.contains('|'),
        plain_field(condition),
    ensures
        client_request("SET_PLAYER_CONDITION|"@ + decimal_text(n as nat) + "|"@ + stamina + "|"@ + condition) == Ok::<RequestView, BridgeError>(
            RequestView::SetPlayerCondition { athlete_id: n, stamina, condition },
        ),
{
    let cmd = "SET_PLAYER_CONDITION"@;
    assert(cmd.len() > 0 && !crate::text::is_white_space(cmd[0]) && !cmd.contains('|')) by {
        reveal_strlit("SET_PLAYER_CONDITION");
    }
    assert("SET_PLAYER_CONDITION|"@ =~= cmd.push('|')) by {
        reveal_strlit("SET_PLAYER_CONDITION|");
        reveal_strlit("SET_PLAYER_CONDITION");
    }
    crate::wire::lemma_id_text(n);
    let d = decimal_text(n as nat);
    lemma_four_fields(cmd, d, stamina, condition);
    let ps = seq![cmd, d, stamina, condition];
    assert(request_fields("SET_PLAYER_CONDITION|"@ + d + "|"@ + stamina + "|"@ + condition) == ps);
    lemma_set_player_condition_group(ps);
}

/// The commands that carry several values: an economy line sets money,
/// then the transfer budget, then the salary budget, each as written; a
/// condition line sets the player's stamina and then its condition.
pub proof fn lemma_value_list_requests(
    n: usize,
    money: Seq<char>,
    transfer_budget: Seq<char>,
    salary_budget: Seq<char>,
    stamina: Seq<char>,
    condition: Seq<char>,
)
    requires
        !money.contains('|'),
        !transfer_budget.contains('|'),
        plain_field(salary_budget),
        !stamina.contains('|'),
        plain_field(condition),
    ensures
        client_request("SET_ECONOMY|"@ + money + "|"@ + transfer_budget + "|"@ + salary_budget) == Ok::<RequestView, BridgeError>(
            RequestView::SetEconomy {
                money: Some(money),
                transfer_budget: Some(transfer_budget),
                salary_budget: Some(salary_budget),
            },
        ),
        client_request("SET_PLAYER_CONDITION|"@ + decimal_text(n as nat) + "|"@ + stamina + "|"@ + condition)
            == Ok::<RequestView, BridgeError>(RequestView::SetPlayerCondition { athlete_id: n, stamina, condition }),
{
    lemma_line_set_economy(money, transfer_budget, salary_budget);
    lemma_line_set_player_condition(n, stamina, condition);
}

/// Reads one command line.
pub fn parse_client_request(line: &str) -> (r: Result<BridgeRequest, BridgeError>)
    ensures
        request_result(r) == client_request(line@),
{
    let trimmed_line = trim_chars(&chars_of(line));
    let ps = split_chars(&trimmed_line, '|');
    proof {
        reveal(client_request_of);
        lemma_split_pieces_nonempty(trimmed_line@, '|');
    }
    if let Some(r) = general_command(&ps) {
        return r;
    }
    if let Some(r) = staff_command(&ps) {
        return r;
    }
    if let Some(r) = team_command(&ps) {
        return r;
    }
    if let Some(r) = player_command(&ps) {
        return r;
    }
    if let Some(r) = player_edit_command(&ps) {
        return r;
    }
    Err(BridgeError::UnknownCommand)
}

} // verus!
