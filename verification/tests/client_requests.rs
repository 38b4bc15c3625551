use tfm2_editor::edits::ContractDefaultsEntity;
use tfm2_editor::error::BridgeError;
use tfm2_editor::hex::hex_encode;
use tfm2_editor::requests::{parse_client_request, BridgeRequest};

fn code(line: &str) -> &'static str {
    match parse_client_request(line) {
        Ok(_) => "OK",
        Err(error) => error.code(),
    }
}

fn full_strategy() -> String {
    [
        "focused\tBottom",
        "early_jungle\tCounterJungle",
        "early_serpen\tFlexible",
        "early_serpen_top\tFlexible",
        "object_buildup\tFlexible",
        "object_battle\tPoking",
        "morgard_use\tGather",
        "tower_press\tPoking",
        "morgard_defense\tBattle",
        "object_finish\tKillPriority",
        "minion_wave\tWavePriority",
        "game_finish\tStable",
    ]
    .join("\n")
}

#[test]
fn plain_commands_and_unknown_ones() {
    assert!(matches!(parse_client_request("PING"), Ok(BridgeRequest::Ping)));
    assert!(matches!(parse_client_request("  GET_TEAMS \r\n"), Ok(BridgeRequest::GetTeams)));
    assert!(matches!(parse_client_request("GET_RECRUITMENT_SETTINGS"), Ok(BridgeRequest::GetRecruitmentSettings)));
    assert!(matches!(parse_client_request("GET_LEAGUES|ignored"), Ok(BridgeRequest::GetGlobalLeagues)));
    assert_eq!(code("ping"), "UNKNOWN_COMMAND");
    assert_eq!(code(""), "UNKNOWN_COMMAND");
    assert_eq!(code("GET_TEAM"), "UNKNOWN_COMMAND");
}

#[test]
fn id_commands_need_a_valid_id() {
    match parse_client_request("GET_STAFF|42") {
        Ok(BridgeRequest::GetStaff { staff_id }) => assert_eq!(staff_id, 42),
        _ => panic!("GET_STAFF"),
    }
    match parse_client_request("GET_TEAM_HISTORY|+7") {
        Ok(BridgeRequest::GetGlobalTeamHistory { team_id }) => assert_eq!(team_id, 7),
        _ => panic!("GET_TEAM_HISTORY"),
    }
    assert_eq!(code("GET_STAFF"), "MISSING_VALUE");
    assert_eq!(code("GET_PLAYER|x"), "INVALID_ID");
    assert_eq!(code("GET_PLAYER|-1"), "INVALID_ID");
    assert_eq!(code("SET_PLAYER_COMMUNICATION_MAX|"), "INVALID_ID");
}

#[test]
fn economy_fields_stay_text() {
    match parse_client_request("SET_ECONOMY|1.5|2") {
        Ok(BridgeRequest::SetEconomy { money, transfer_budget, salary_budget }) => {
            assert_eq!(money.as_deref(), Some("1.5"));
            assert_eq!(transfer_budget.as_deref(), Some("2"));
            assert_eq!(salary_budget, None);
        },
        _ => panic!("SET_ECONOMY"),
    }
}

#[test]
fn names_are_hex_decoded_and_checked() {
    let line = format!("SET_STAFF_NAME|5|{}", hex_encode("  Faker "));
    match parse_client_request(&line) {
        Ok(BridgeRequest::SetStaffName { staff_id, values }) => {
            assert_eq!(staff_id, 5);
            assert_eq!(values.name, "Faker");
        },
        _ => panic!("SET_STAFF_NAME"),
    }
    assert_eq!(code("SET_PLAYER_NAME|5"), "MISSING_VALUE");
    assert_eq!(code("SET_PLAYER_NAME|5|zz"), "INVALID_NAME_ENCODING");
    assert_eq!(code(&format!("SET_PLAYER_NAME|5|{}", hex_encode("   "))), "NAME_EMPTY");
}

#[test]
fn ratings_default_to_empty_fields() {
    match parse_client_request("SET_STAFF_STATS|3|10|20") {
        Ok(BridgeRequest::SetStaffStats { staff_id, values }) => {
            assert_eq!(staff_id, 3);
            assert_eq!(values.banpick, "10");
            assert_eq!(values.strategy, "20");
            assert_eq!(values.negotiation, "");
            assert_eq!(values.mental_coaching, "");
        },
        _ => panic!("SET_STAFF_STATS"),
    }
    match parse_client_request("SET_PLAYER_STATS|4|1|2|3|4|5|6|7|8|9|10|11|12") {
        Ok(BridgeRequest::SetPlayerStats { athlete_id, values }) => {
            assert_eq!(athlete_id, 4);
            assert_eq!(values.last_hit, "1");
            assert_eq!(values.ego, "12");
        },
        _ => panic!("SET_PLAYER_STATS"),
    }
    match parse_client_request("SET_PLAYER_SALARY|4") {
        Ok(BridgeRequest::SetPlayerSalary { values, .. }) => assert_eq!(values.annual_salary, ""),
        _ => panic!("SET_PLAYER_SALARY"),
    }
}

#[test]
fn contract_dates_are_checked_in_requests() {
    match parse_client_request("SET_STAFF_CONTRACT|1|2|2025-01-01|2026-12-31|1000") {
        Ok(BridgeRequest::SetStaffContract { staff_id, values }) => {
            assert_eq!(staff_id, 1);
            assert_eq!(values.team_id, 2);
            assert_eq!(values.start_date, "2025-01-01");
            assert_eq!(values.annual_salary, "1000");
        },
        _ => panic!("SET_STAFF_CONTRACT"),
    }
    assert_eq!(code("SET_STAFF_CONTRACT|1|2|2027-01-01|2026-12-31|1000"), "CONTRACT_END_BEFORE_START");
    assert_eq!(code("SET_STAFF_CONTRACT|1|2|2025-01-01|2026-12-31"), "MISSING_VALUE");
    assert_eq!(code("SET_STAFF_CONTRACT_END|1|2026-13"), "INVALID_CONTRACT_DATE");
    assert_eq!(code("SET_PLAYER_CONTRACT_END|1"), "INVALID_CONTRACT_DATE");
    match parse_client_request("SET_PLAYER_CONTRACT_END|9| 2026-12-31 ") {
        Ok(BridgeRequest::SetPlayerContractEnd { athlete_id, values }) => {
            assert_eq!(athlete_id, 9);
            assert_eq!(values.end_date, " 2026-12-31");
        },
        _ => panic!("SET_PLAYER_CONTRACT_END"),
    }
}

#[test]
fn player_contracts_read_flags_in_order() {
    let line = "SET_PLAYER_CONTRACT|7|3|2025-01-01|2027-12-31|50000|0|Core|1|100|0||5|1|10|0|20";
    match parse_client_request(line) {
        Ok(BridgeRequest::SetPlayerContract { athlete_id, values }) => {
            assert_eq!(athlete_id, 7);
            assert_eq!(values.team_id, 3);
            assert_eq!(values.squad_status, "Core");
            assert!(values.pog_enabled);
            assert_eq!(values.pog_bonus, "100");
            assert!(!values.league_enabled);
            assert_eq!(values.league_rank, "5");
            assert!(values.match_enabled);
            assert!(!values.win_enabled);
            assert_eq!(values.win_bonus, "20");
        },
        _ => panic!("SET_PLAYER_CONTRACT"),
    }
    assert_eq!(code("SET_PLAYER_CONTRACT|7|3|2025-01-01|2027-12-31|50000|0|Core|yes|100"), "INVALID_BOOLEAN");
    assert_eq!(code("SET_PLAYER_CONTRACT|7|3|2025-01-01|2027-12-31|50000|0|Core|1"), "MISSING_VALUE");
    assert_eq!(
        code("SET_PLAYER_CONTRACT|7|3|2028-01-01|2027-12-31|50000|0|Core|1|100|0||5|1|10|0|20"),
        "CONTRACT_END_BEFORE_START"
    );
}

#[test]
fn staff_moves_and_communication() {
    match parse_client_request("MOVE_STAFF_TO_TEAM|1|2|  ") {
        Ok(BridgeRequest::MoveStaffToTeam { staff_id, team_id, role }) => {
            assert_eq!((staff_id, team_id), (1, 2));
            assert_eq!(role, None);
        },
        _ => panic!("MOVE_STAFF_TO_TEAM"),
    }
    match parse_client_request("MOVE_STAFF_TO_TEAM|1|2| Analyst") {
        Ok(BridgeRequest::MoveStaffToTeam { role, .. }) => assert_eq!(role.as_deref(), Some(" Analyst")),
        _ => panic!("MOVE_STAFF_TO_TEAM role"),
    }
    assert_eq!(code("MOVE_STAFF_TO_TEAM|1|2|Coach"), "INVALID_STAFF_ROLE");
    match parse_client_request("SET_STAFF_COMMUNICATION|8|0=50;3=100") {
        Ok(BridgeRequest::SetStaffCommunication { staff_id, values }) => {
            assert_eq!(staff_id, 8);
            assert_eq!(values.entries, vec![(0, 50), (3, 100)]);
        },
        _ => panic!("SET_STAFF_COMMUNICATION"),
    }
    assert_eq!(code("SET_STAFF_COMMUNICATION|8"), "NO_COMMUNICATION_REGIONS");
    match parse_client_request("MOVE_PLAYER_TO_TEAM|5|6") {
        Ok(BridgeRequest::MovePlayerToTeam { athlete_id, team_id }) => assert_eq!((athlete_id, team_id), (5, 6)),
        _ => panic!("MOVE_PLAYER_TO_TEAM"),
    }
}

#[test]
fn contract_defaults_name_their_entity() {
    match parse_client_request("GET_CONTRACT_DEFAULTS|PLAYER|12") {
        Ok(BridgeRequest::GetContractDefaults { entity, team_id }) => {
            assert_eq!(entity, ContractDefaultsEntity::Player);
            assert_eq!(team_id, 12);
        },
        _ => panic!("GET_CONTRACT_DEFAULTS"),
    }
    match parse_client_request("GET_CONTRACT_DEFAULTS|STAFF|12") {
        Ok(BridgeRequest::GetContractDefaults { entity, .. }) => assert_eq!(entity, ContractDefaultsEntity::Staff),
        _ => panic!("GET_CONTRACT_DEFAULTS staff"),
    }
    assert_eq!(code("GET_CONTRACT_DEFAULTS|COACH|12"), "INVALID_CONTRACT_ENTITY");
    assert_eq!(code("GET_CONTRACT_DEFAULTS|PLAYER"), "MISSING_VALUE");
    assert_eq!(code("GET_CONTRACT_DEFAULTS"), "MISSING_VALUE");
}

#[test]
fn team_edits_are_decoded_and_checked() {
    let line = format!("SET_TEAM_MERCHANDISE|4|{}|9| 12 |3.5", hex_encode("Jersey"));
    match parse_client_request(&line) {
        Ok(BridgeRequest::SetTeamMerchandise { team_id, values }) => {
            assert_eq!(team_id, 4);
            assert_eq!(values.product_type, "Jersey");
            assert_eq!(values.athlete_id, 9);
            assert_eq!(values.stock, " 12 ");
            assert_eq!(values.sell_price, "3.5");
        },
        _ => panic!("SET_TEAM_MERCHANDISE"),
    }
    assert_eq!(code(&format!("SET_TEAM_MERCHANDISE|4|{}|9|x|3.5", hex_encode("Jersey"))), "INVALID_MERCHANDISE_STOCK");
    let fans = format!("SET_TEAM_FANS|4|High|1000|{}|{}|2", hex_encode("Win"), hex_encode("Happy"));
    match parse_client_request(&fans) {
        Ok(BridgeRequest::SetTeamFans { team_id, values }) => {
            assert_eq!(team_id, 4);
            assert_eq!(values.fan_expectation, "Win");
            assert_eq!(values.fan_momentum, "2");
        },
        _ => panic!("SET_TEAM_FANS"),
    }
    let far = format!("SET_TEAM_FANS|4|High|1000|{}|{}|9", hex_encode("Win"), hex_encode("Happy"));
    assert_eq!(code(&far), "FAN_MOMENTUM_OUT_OF_RANGE");
    match parse_client_request("GET_TEAM_REPLAY_STRATEGIES|4|3,1,3") {
        Ok(BridgeRequest::GetTeamReplayStrategies { team_id, replay_ids }) => {
            assert_eq!(team_id, 4);
            assert_eq!(replay_ids, vec![3, 1]);
        },
        _ => panic!("GET_TEAM_REPLAY_STRATEGIES"),
    }
    assert_eq!(code("GET_TEAM_REPLAY_STRATEGIES|4"), "MISSING_VALUE");
    let strategy = format!("SET_TEAM_STRATEGY|4|{}", hex_encode(&full_strategy()));
    match parse_client_request(&strategy) {
        Ok(BridgeRequest::SetTeamStrategy { team_id, raw_strategy }) => {
            assert_eq!(team_id, 4);
            assert_eq!(raw_strategy, full_strategy());
        },
        _ => panic!("SET_TEAM_STRATEGY"),
    }
    assert_eq!(code(&format!("SET_TEAM_STRATEGY|4|{}", hex_encode("focused\tTop"))), "MISSING_STRATEGY_VALUE");
}

#[test]
fn player_edits_are_read_and_checked() {
    match parse_client_request("SET_CHAMPION_MASTERY|2|Ahri:3;  ;Zed:5") {
        Ok(BridgeRequest::SetChampionMastery { athlete_id, values }) => {
            assert_eq!(athlete_id, 2);
            assert_eq!(values.len(), 2);
            assert_eq!(values[0].champion_id, "Ahri");
            assert_eq!(values[0].mastery, 3);
            assert_eq!(values[1].champion_id, "Zed");
            assert_eq!(values[1].mastery, 5);
        },
        _ => panic!("SET_CHAMPION_MASTERY"),
    }
    assert_eq!(code("SET_CHAMPION_MASTERY|2| Zed:5"), "INVALID_CHAMPION_ID");
    assert_eq!(code("SET_CHAMPION_MASTERY|2|Zed:101"), "MASTERY_OUT_OF_RANGE");
    assert!(matches!(parse_client_request("SET_CHAMPION_MASTERY|2|Zed:5").map_err(|e| e == BridgeError::InvalidMastery), Ok(_)));
    assert_eq!(code("SET_CHAMPION_MASTERY|2|Ahri"), "INVALID_MASTERY_ENTRY");
    assert_eq!(code("SET_CHAMPION_MASTERY|2|Ahri:x"), "INVALID_MASTERY");
    assert_eq!(code("SET_CHAMPION_MASTERY|2"), "NO_CHAMPIONS_SELECTED");
    match parse_client_request("SET_PLAYER_POSITIONS|2|20|0|0|15|0") {
        Ok(BridgeRequest::SetPlayerPositions { athlete_id, values }) => {
            assert_eq!(athlete_id, 2);
            assert_eq!(values.top, 20);
            assert_eq!(values.bottom, 15);
        },
        _ => panic!("SET_PLAYER_POSITIONS"),
    }
    assert_eq!(code("SET_PLAYER_POSITIONS|2|20|0|x|15|0"), "INVALID_POSITION");
    assert_eq!(code("SET_PLAYER_POSITIONS|2|20|0"), "MISSING_VALUE");
    match parse_client_request("SET_PLAYER_POTENTIAL|2|180") {
        Ok(BridgeRequest::SetPlayerPotential { values, .. }) => assert_eq!(values.potential, 180),
        _ => panic!("SET_PLAYER_POTENTIAL"),
    }
    assert_eq!(code("SET_PLAYER_POTENTIAL|2|70000"), "INVALID_POTENTIAL");
    match parse_client_request("SET_PLAYER_CONDITION|2|80|90") {
        Ok(BridgeRequest::SetPlayerCondition { values, .. }) => {
            assert_eq!(values.stamina, "80");
            assert_eq!(values.condition, "90");
        },
        _ => panic!("SET_PLAYER_CONDITION"),
    }
    assert_eq!(code("SET_PLAYER_CONDITION|2|80"), "MISSING_VALUE");
    match parse_client_request("SET_PLAYER_COMMUNICATION|2|1|100") {
        Ok(BridgeRequest::SetPlayerCommunication { values, .. }) => {
            assert_eq!(values.region_id, 1);
            assert_eq!(values.level, 100);
        },
        _ => panic!("SET_PLAYER_COMMUNICATION"),
    }
    assert_eq!(code("SET_PLAYER_COMMUNICATION|2|1|high"), "INVALID_COMMUNICATION");
    assert_eq!(code("SET_PLAYER_COMMUNICATION|2|1|101"), "COMMUNICATION_OUT_OF_RANGE");
}

#[test]
fn runtime_toggles_take_one_or_zero() {
    assert!(matches!(
        parse_client_request("SET_TRANSFER_ALWAYS_SUCCESS|1"),
        Ok(BridgeRequest::SetTransferAlwaysSuccess { enabled: true })
    ));
    assert!(matches!(
        parse_client_request("SET_RECRUITMENT_INSTANT_RETRY|0"),
        Ok(BridgeRequest::SetRecruitmentInstantRetry { enabled: false })
    ));
    assert_eq!(code("SET_TRANSFER_ALWAYS_SUCCESS|true"), "INVALID_BOOLEAN");
    assert_eq!(code("SET_RECRUITMENT_INSTANT_RETRY"), "INVALID_BOOLEAN");
}
