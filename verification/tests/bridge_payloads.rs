use tfm2_editor::commands::{
    free_agent_payload, move_player_payload, move_staff_payload, append_tsv_row, parse_contract_bool, parse_move_player_payload, parse_move_staff_payload,
    parse_player_free_agent_payload, parse_replay_id_list, parse_squad_status, parse_staff_role,
    parse_team_strategy_probe_payload, parse_team_strategy_set_payload,
    parse_team_strategy_values, sanitize_tsv_cell, team_strategy_probe_payload,
    team_strategy_set_payload, validate_optional_staff_role, SquadStatus, StaffRole,
};
use tfm2_editor::error::BridgeError;
use tfm2_editor::hex::{hex_decode, hex_encode, hex_join_records, hex_value};
use tfm2_editor::players::{
    champion_mastery_payload, parse_server_champion_mastery, parse_server_player_communication,
    parse_server_player_communication_max, parse_server_player_positions,
    parse_server_player_potential, player_communication_max_payload, player_communication_payload,
    player_positions_payload, player_potential_payload, validate_champion_mastery_values,
    validate_player_communication, validate_player_positions, validate_player_potential,
    validate_position_value, ChampionMasteryValue, PlayerCommunicationValue,
    PlayerPositionValues, PlayerPotentialValue,
};
use tfm2_editor::teams::{
    base_team_fan_count_from_displayed, displayed_team_fan_count, parse_team_fans_write_payload,
    parse_team_merchandise_fields, team_fans_write_payload, team_merchandise_write_payload,
    validate_team_fans_write, validate_team_merchandise_fields, TeamFansWriteValue,
    TeamMerchandiseWriteValue,
};
use tfm2_editor::wire::{
    contract_end_text, contract_start_text, entity_name_payload, parse_server_entity_name,
    parse_server_player_contract_end, parse_server_staff_communication,
    parse_server_staff_contract_end, parse_staff_communication_entries,
    player_contract_end_payload, staff_communication_payload, staff_contract_end_payload,
    validate_contract_dates, validate_contract_end_date_text, validate_entity_name,
    validate_staff_communication, EntityNameValue, PlayerContractEndValue,
    StaffCommunicationValues, StaffContractEndValue,
};

fn code<T>(result: Result<T, BridgeError>) -> &'static str {
    match result {
        Ok(_) => "OK",
        Err(error) => error.code(),
    }
}

#[test]
fn streamed_hex_payload_matches_existing_wire_format() {
    let records = vec!["A|B".to_string(), "René".to_string(), "{}".to_string()];
    let legacy = records.iter().map(|record| hex_encode(record)).collect::<Vec<_>>().join(";");
    assert_eq!(hex_join_records(&records), legacy);
    assert_eq!(hex_join_records(&[]), "");
    assert_eq!(hex_join_records(&["x".to_string()]), hex_encode("x"));
}

#[test]
fn hex_encoding_is_lower_case_utf8_and_decodes_back() {
    assert_eq!(hex_encode("A|B"), "417c42");
    assert_eq!(hex_encode("é"), "c3a9");
    assert_eq!(hex_decode("417c42"), Ok("A|B".to_string()));
    assert_eq!(hex_decode("C3A9"), Ok("é".to_string()));
    assert_eq!(hex_decode("417"), Err(BridgeError::InvalidNameEncoding));
    assert_eq!(hex_decode("zz"), Err(BridgeError::InvalidNameEncoding));
    assert_eq!(hex_decode("ff"), Err(BridgeError::InvalidNameEncoding));
    assert_eq!(hex_value(b'7'), Some(7));
    assert_eq!(hex_value(b'b'), Some(11));
    assert_eq!(hex_value(b'F'), Some(15));
    assert_eq!(hex_value(b'g'), None);
}

#[test]
fn entity_name_payload_round_trips_unicode_and_separator() {
    let values = EntityNameValue {
        name: "René | 홍길동".to_string(),
    };
    let payload = entity_name_payload(42, &values);
    let (entity_id, decoded) = parse_server_entity_name(&payload).unwrap();
    assert_eq!(entity_id, 42);
    assert_eq!(decoded.name, values.name);
}

#[test]
fn entity_name_validation_trims_and_rejects_invalid_values() {
    assert_eq!(validate_entity_name("  Valid Name  ").unwrap(), "Valid Name");
    assert!(validate_entity_name("   ").is_err());
    assert!(validate_entity_name("line\nbreak").is_err());
    assert!(validate_entity_name(&"x".repeat(101)).is_err());
}

#[test]
fn entity_name_errors_name_the_first_problem() {
    assert_eq!(code(validate_entity_name("   ")), "NAME_EMPTY");
    assert_eq!(code(validate_entity_name(&"x".repeat(101))), "NAME_TOO_LONG");
    assert_eq!(code(validate_entity_name("tab\tinside")), "NAME_CONTROL_CHARACTER");
    assert_eq!(validate_entity_name(&"x".repeat(100)).unwrap().len(), 100);
    assert_eq!(code(parse_server_entity_name(b"42")), "MISSING_VALUE");
    assert_eq!(code(parse_server_entity_name(b"42|4")), "INVALID_NAME_ENCODING");
    assert_eq!(code(parse_server_entity_name(b"x|41")), "INVALID_ID");
    assert_eq!(code(parse_server_entity_name(b"7|2020")), "NAME_EMPTY");
    assert_eq!(code(parse_server_entity_name(&[0xff, b'|'])), "INVALID_PAYLOAD");
}

#[test]
fn quick_contract_end_reuses_full_contract_editor_end_of_day_serialization() {
    assert_eq!(contract_end_text("2032-12-31").unwrap(), "2032-12-31T23:59:59");
    assert_eq!(validate_contract_end_date_text("2032-12-31"), Ok("2032-12-31"));
    assert!(validate_contract_end_date_text("2032-12-31T23:59:59").is_err());
    assert_eq!(
        player_contract_end_payload(
            42,
            &PlayerContractEndValue {
                end_date: "2032-12-31".to_string(),
            }
        ),
        b"42|2032-12-31"
    );
    assert_eq!(
        staff_contract_end_payload(
            7,
            &StaffContractEndValue {
                end_date: "2032-12-31".to_string(),
            }
        ),
        b"7|2032-12-31"
    );
}

#[test]
fn contract_dates_are_checked_and_ordered() {
    assert_eq!(validate_contract_end_date_text(" 2032-01-05 "), Ok("2032-01-05"));
    assert_eq!(code(validate_contract_end_date_text("2032/01/05")), "INVALID_CONTRACT_DATE");
    assert_eq!(code(validate_contract_end_date_text("2032-0a-05")), "INVALID_CONTRACT_DATE");
    assert_eq!(validate_contract_dates("2030-01-01", "2032-12-31"), Ok(()));
    assert_eq!(validate_contract_dates("2030-01-01", "2030-01-01"), Ok(()));
    assert_eq!(code(validate_contract_dates("2032-12-31", "2030-01-01")), "CONTRACT_END_BEFORE_START");
    assert_eq!(code(validate_contract_dates("bad", "2030-01-01")), "INVALID_CONTRACT_DATE");
    assert_eq!(contract_start_text("2030-01-01").unwrap(), "2030-01-01T00:00:00");
    assert_eq!(code(contract_start_text("2030-1-01")), "INVALID_CONTRACT_DATE");
}

#[test]
fn contract_end_payloads_are_read_back() {
    let payload = staff_contract_end_payload(
        7,
        &StaffContractEndValue {
            end_date: "2032-12-31".to_string(),
        },
    );
    let (id, values) = parse_server_staff_contract_end(&payload).unwrap();
    assert_eq!(id, 7);
    assert_eq!(values.end_date, "2032-12-31");
    let (id, values) = parse_server_player_contract_end(b"42|2032-12-31").unwrap();
    assert_eq!(id, 42);
    assert_eq!(values.end_date, "2032-12-31");
    assert_eq!(code(parse_server_player_contract_end(b"42")), "MISSING_VALUE");
    assert_eq!(code(parse_server_player_contract_end(b"x|2032-12-31")), "INVALID_ID");
    assert_eq!(code(parse_server_player_contract_end(b"42|2032")), "INVALID_CONTRACT_DATE");
}

#[test]
fn staff_communication_payload_round_trips() {
    let values = StaffCommunicationValues {
        entries: vec![(3, 80), (1, 100), (7, 0)],
    };
    assert_eq!(validate_staff_communication(&values), Ok(()));
    let payload = staff_communication_payload(12, &values);
    assert_eq!(payload, b"12|3=80;1=100;7=0");
    let (id, decoded) = parse_server_staff_communication(&payload).unwrap();
    assert_eq!(id, 12);
    assert_eq!(decoded.entries, values.entries);
}

#[test]
fn staff_communication_errors_come_in_order() {
    let empty = StaffCommunicationValues { entries: vec![] };
    assert_eq!(code(validate_staff_communication(&empty)), "NO_COMMUNICATION_REGIONS");
    let duplicate = StaffCommunicationValues {
        entries: vec![(1, 10), (1, 200)],
    };
    assert_eq!(code(validate_staff_communication(&duplicate)), "DUPLICATE_REGION");
    let too_high = StaffCommunicationValues {
        entries: vec![(1, 101), (1, 10)],
    };
    assert_eq!(code(validate_staff_communication(&too_high)), "COMMUNICATION_OUT_OF_RANGE");
    assert_eq!(parse_staff_communication_entries(" ;1=5; ;").unwrap().entries, vec![(1, 5)]);
    assert_eq!(code(parse_staff_communication_entries("1")), "INVALID_COMMUNICATION");
    assert_eq!(code(parse_staff_communication_entries("x=1")), "INVALID_REGION");
    assert_eq!(code(parse_staff_communication_entries("1=70000")), "INVALID_COMMUNICATION");
    assert_eq!(code(parse_staff_communication_entries("")), "NO_COMMUNICATION_REGIONS");
    assert_eq!(code(parse_server_staff_communication(b"x|1=5")), "INVALID_ID");
    assert_eq!(code(parse_server_staff_communication(b"15")), "MISSING_VALUE");
}

#[test]
fn tsv_rows_replace_breaks_and_tabs() {
    assert_eq!(sanitize_tsv_cell("a\tb\nc\rd"), "a b c d");
    let mut output = String::new();
    append_tsv_row(&mut output, &["a".to_string(), "b\tc".to_string()]);
    append_tsv_row(&mut output, &["d".to_string()]);
    assert_eq!(output, "a\tb c\nd");
}

#[test]
fn team_merchandise_payload_round_trips_only_target_fields() {
    let values = TeamMerchandiseWriteValue {
        product_type: "Uniform|Special".to_string(),
        athlete_id: 42,
        stock: "123".to_string(),
        sell_price: "49.5".to_string(),
    };
    let payload = team_merchandise_write_payload(85, &values);
    let (team_id, decoded) = parse_team_merchandise_fields(&payload).unwrap();
    assert_eq!(team_id, 85);
    assert_eq!(decoded.product_type, values.product_type);
    assert_eq!(decoded.athlete_id, 42);
    assert_eq!(decoded.stock, "123");
    assert_eq!(decoded.sell_price, "49.5");
}

#[test]
fn team_fans_payload_round_trips_observed_satisfaction_text() {
    let values = TeamFansWriteValue {
        popularity: "74".to_string(),
        fan_count: "120000".to_string(),
        fan_expectation: "Lower|Observed".to_string(),
        fan_satisfaction: "VerySatisfied|Observed".to_string(),
        fan_momentum: "5".to_string(),
    };
    let payload = team_fans_write_payload(85, &values);
    let (team_id, decoded) = parse_team_fans_write_payload(&payload).unwrap();
    assert_eq!(team_id, 85);
    assert_eq!(decoded.popularity, "74");
    assert_eq!(decoded.fan_count, "120000");
    assert_eq!(decoded.fan_expectation, values.fan_expectation);
    assert_eq!(decoded.fan_satisfaction, values.fan_satisfaction);
    assert_eq!(decoded.fan_momentum, "5");
}

#[test]
fn team_fans_payload_rejects_legacy_shape() {
    let old_payload = b"85|2|37193|4c6f776572|56657279536174697366696564";
    assert!(parse_team_fans_write_payload(old_payload).is_err());
}

#[test]
fn team_fan_count_matches_game_composite_and_writes_back_to_base_team_fans() {
    let roster_player_fans = 5_083u128 + 7_015 + 3_118 + 55 + 2_993 + 3_832;
    assert_eq!(roster_player_fans, 22_096);
    assert_eq!(displayed_team_fan_count(15_097, roster_player_fans), Ok(37_193));
    assert_eq!(base_team_fan_count_from_displayed(40_000, roster_player_fans), Ok(17_904));
    assert_eq!(
        code(base_team_fan_count_from_displayed(20_000, roster_player_fans)),
        "FAN_COUNT_BELOW_PLAYER_FANS"
    );
}

#[test]
fn fan_count_written_back_gives_the_count_shown() {
    let shown = displayed_team_fan_count(17_904, 22_096).unwrap();
    assert_eq!(base_team_fan_count_from_displayed(shown, 22_096), Ok(17_904));
    assert_eq!(code(displayed_team_fan_count(u128::MAX, 1)), "FAN_COUNT_OVERFLOW");
}

#[test]
fn team_fans_payload_includes_expectation_and_validated_momentum() {
    let values = TeamFansWriteValue {
        popularity: "2".to_string(),
        fan_count: "37193".to_string(),
        fan_expectation: "Upper".to_string(),
        fan_satisfaction: "VerySatisfied".to_string(),
        fan_momentum: "-4".to_string(),
    };
    let payload = String::from_utf8(team_fans_write_payload(85, &values)).unwrap();
    assert_eq!(payload, "85|2|37193|5570706572|56657279536174697366696564|-4");
}

#[test]
fn team_quick_edit_validation_rejects_invalid_numeric_values() {
    assert!(validate_team_merchandise_fields(&TeamMerchandiseWriteValue {
        product_type: "Uniform".to_string(),
        athlete_id: 1,
        stock: "-1".to_string(),
        sell_price: "10".to_string(),
    })
    .is_err());
    assert!(validate_team_fans_write(&TeamFansWriteValue {
        popularity: "10".to_string(),
        fan_count: "-1".to_string(),
        fan_expectation: "Lower".to_string(),
        fan_satisfaction: "Satisfied".to_string(),
        fan_momentum: "0".to_string(),
    })
    .is_err());
    assert!(validate_team_fans_write(&TeamFansWriteValue {
        popularity: "2".to_string(),
        fan_count: "37193".to_string(),
        fan_expectation: "Lower".to_string(),
        fan_satisfaction: "Satisfied".to_string(),
        fan_momentum: "6".to_string(),
    })
    .is_err());
}

#[test]
fn team_fan_settings_errors_name_the_first_bad_field() {
    let mut values = TeamFansWriteValue {
        popularity: " ".to_string(),
        fan_count: "x".to_string(),
        fan_expectation: " ".to_string(),
        fan_satisfaction: " ".to_string(),
        fan_momentum: "x".to_string(),
    };
    assert_eq!(code(validate_team_fans_write(&values)), "INVALID_FAN_POPULARITY");
    values.popularity = "1".to_string();
    assert_eq!(code(validate_team_fans_write(&values)), "INVALID_FAN_COUNT");
    values.fan_count = " 10 ".to_string();
    assert_eq!(code(validate_team_fans_write(&values)), "INVALID_FAN_EXPECTATION");
    values.fan_expectation = "Lower".to_string();
    assert_eq!(code(validate_team_fans_write(&values)), "INVALID_FAN_SATISFACTION");
    values.fan_satisfaction = "Satisfied".to_string();
    assert_eq!(code(validate_team_fans_write(&values)), "INVALID_FAN_MOMENTUM");
    values.fan_momentum = "-6".to_string();
    assert_eq!(code(validate_team_fans_write(&values)), "FAN_MOMENTUM_OUT_OF_RANGE");
    values.fan_momentum = "+5".to_string();
    assert_eq!(validate_team_fans_write(&values), Ok(()));
    let merchandise = TeamMerchandiseWriteValue {
        product_type: "  ".to_string(),
        athlete_id: 1,
        stock: "1".to_string(),
        sell_price: "1".to_string(),
    };
    assert_eq!(code(validate_team_merchandise_fields(&merchandise)), "INVALID_MERCHANDISE_TYPE");
}

#[test]
fn replay_id_list_parser_accepts_unique_ids_and_rejects_empty_input() {
    assert_eq!(parse_replay_id_list("87,88,87"), Ok(vec![87, 88]));
    assert_eq!(code(parse_replay_id_list("")), "NO_REPLAY_IDS");
    assert_eq!(code(parse_replay_id_list("87,nope")), "INVALID_REPLAY_ID");
}

#[test]
fn replay_ids_are_trimmed_and_blank_pieces_skipped() {
    assert_eq!(parse_replay_id_list(" 5 , ,6,5"), Ok(vec![5, 6]));
    assert_eq!(code(parse_replay_id_list(" , ")), "NO_REPLAY_IDS");
}

#[test]
fn team_strategy_probe_payload_round_trips_team_id() {
    let payload = team_strategy_probe_payload(85);
    assert_eq!(parse_team_strategy_probe_payload(&payload), Ok(85));
    assert_eq!(code(parse_team_strategy_probe_payload(b"not-an-id")), "INVALID_ID");
}

fn full_strategy() -> String {
    [
        "focused\tBottom",
        "early_jungle\tCounterJungle",
        "early_serpen\tFlexible",
        "early_serpen_top\tFlexible",
        "object_buildup\tFlexible",
        "object_battle\tPoking",
        "morgard_use\tGather",
        "tower_press\tPoking",
        "morgard_defense\tBattle",
        "object_finish\tKillPriority",
        "minion_wave\tWavePriority",
        "game_finish\tStable",
    ]
    .join("\n")
}

#[test]
fn team_strategy_set_payload_round_trips_all_fields() {
    let raw = full_strategy();
    let payload = team_strategy_set_payload(85, &raw);
    let (team_id, decoded) = parse_team_strategy_set_payload(&payload).unwrap();
    assert_eq!(team_id, 85);
    assert_eq!(decoded, raw);
    assert_eq!(parse_team_strategy_values(&decoded).unwrap().len(), 12);
}

#[test]
fn strategy_values_keep_the_last_setting_and_need_all_twelve() {
    let raw = format!("{}\r\nfocused\tTop\r\n\nno tab line\n", full_strategy());
    let values = parse_team_strategy_values(&raw).unwrap();
    assert_eq!(values.len(), 12);
    assert!(values.iter().any(|(key, value)| key == "focused" && value == "Top"));
    let missing = full_strategy().replace("game_finish\tStable", "");
    assert_eq!(code(parse_team_strategy_values(&missing)), "MISSING_STRATEGY_VALUE");
    assert_eq!(code(parse_team_strategy_set_payload(b"85")), "MISSING_VALUE");
    assert_eq!(code(parse_team_strategy_set_payload(b"x|00")), "INVALID_ID");
}

#[test]
fn move_staff_payload_accepts_optional_supported_role() {
    let (staff_id, team_id, role) = parse_move_staff_payload(b"42|85|Analyst").expect("role payload");
    assert_eq!(staff_id, 42);
    assert_eq!(team_id, 85);
    assert_eq!(role.as_deref(), Some("Analyst"));

    let (_, _, role) = parse_move_staff_payload(b"42|85").expect("legacy payload");
    assert_eq!(role, None);
}

#[test]
fn staff_role_parser_accepts_exact_game_variants() {
    for role in ["HeadCoach", "TrainingCoach", "Scouter", "Analyst"] {
        assert!(parse_staff_role(role).is_ok(), "{role}");
    }
    assert!(parse_staff_role("Coach").is_err());
}

#[test]
fn roles_moves_and_flags_read_their_text() {
    assert_eq!(parse_staff_role(" Scouter "), Ok(StaffRole::Scouter));
    assert_eq!(validate_optional_staff_role(None), Ok(()));
    assert_eq!(code(validate_optional_staff_role(Some("Boss"))), "INVALID_STAFF_ROLE");
    assert_eq!(code(parse_move_staff_payload(b"42|85|Boss")), "INVALID_STAFF_ROLE");
    assert_eq!(parse_move_staff_payload(b"42|85|  ").unwrap().2, None);
    assert_eq!(code(parse_move_staff_payload(b"42")), "MISSING_VALUE");
    assert_eq!(parse_move_player_payload(b"7|9"), Ok((7, 9)));
    assert_eq!(code(parse_move_player_payload(b"7|x")), "INVALID_ID");
    assert_eq!(parse_player_free_agent_payload(b"12"), Ok(12));
    assert_eq!(code(parse_player_free_agent_payload(b" 12")), "INVALID_ID");
    assert_eq!(parse_contract_bool("1"), Ok(true));
    assert_eq!(parse_contract_bool("0"), Ok(false));
    assert_eq!(code(parse_contract_bool("yes")), "INVALID_BOOLEAN");
    assert_eq!(parse_squad_status("Prospect"), Ok(SquadStatus::Prospect));
    assert_eq!(code(parse_squad_status("prospect")), "INVALID_SQUAD_STATUS");
}

#[test]
fn player_positions_payload_round_trips_and_limits_roles() {
    let values = PlayerPositionValues { top: 80, jungle: 0, mid: 55, bottom: 0, support: 100 };
    assert_eq!(validate_player_positions(&values), Ok(()));
    let payload = player_positions_payload(9, values);
    assert_eq!(payload, b"9|80|0|55|0|100");
    let (id, decoded) = parse_server_player_positions(&payload).unwrap();
    assert_eq!(id, 9);
    assert_eq!((decoded.top, decoded.mid, decoded.support), (80, 55, 100));
    let four = PlayerPositionValues { top: 1, jungle: 1, mid: 1, bottom: 1, support: 0 };
    assert_eq!(code(validate_player_positions(&four)), "TOO_MANY_POSITIONS");
    assert_eq!(code(validate_position_value(101)), "POSITION_OUT_OF_RANGE");
    assert_eq!(code(parse_server_player_positions(b"9|1|2|x|0|0")), "INVALID_POSITION");
    assert_eq!(code(parse_server_player_positions(b"9|1|2")), "MISSING_VALUE");
}

#[test]
fn player_potential_and_communication_payloads_round_trip() {
    let potential = PlayerPotentialValue { potential: 77 };
    assert_eq!(player_potential_payload(3, potential), b"3|77");
    assert_eq!(parse_server_player_potential(b"3|77").unwrap().1.potential, 77);
    assert_eq!(code(validate_player_potential(PlayerPotentialValue { potential: 0 })), "POTENTIAL_OUT_OF_RANGE");
    assert_eq!(code(parse_server_player_potential(b"3|x")), "INVALID_POTENTIAL");
    let level = PlayerCommunicationValue { region_id: 4, level: 60 };
    assert_eq!(player_communication_payload(3, level), b"3|4|60");
    let (id, decoded) = parse_server_player_communication(b"3|4|60").unwrap();
    assert_eq!((id, decoded.region_id, decoded.level), (3, 4, 60));
    assert_eq!(
        code(validate_player_communication(PlayerCommunicationValue { region_id: 1, level: 101 })),
        "COMMUNICATION_OUT_OF_RANGE"
    );
    assert_eq!(code(parse_server_player_communication(b"3|4")), "MISSING_VALUE");
    assert_eq!(code(parse_server_player_communication(b"3|4|x")), "INVALID_COMMUNICATION");
}

#[test]
fn communication_max_payload_lists_sorted_distinct_regions() {
    assert_eq!(player_communication_max_payload(5, &[3, 1, 2]), b"5|3,1,2");
    assert_eq!(parse_server_player_communication_max(b"5|3,1,3,2"), Ok((5, vec![1, 2, 3])));
    assert_eq!(code(parse_server_player_communication_max(b"5| ")), "NO_REGIONS_DETECTED");
    assert_eq!(code(parse_server_player_communication_max(b"5|1,x")), "INVALID_ID");
    assert_eq!(code(parse_server_player_communication_max(b"5")), "MISSING_VALUE");
}

#[test]
fn champion_mastery_payload_round_trips_and_checks_entries() {
    let values = vec![
        ChampionMasteryValue { champion_id: "swordman".to_string(), mastery: 90 },
        ChampionMasteryValue { champion_id: "Mage_2".to_string(), mastery: 100 },
    ];
    assert_eq!(validate_champion_mastery_values(&values), Ok(()));
    let payload = champion_mastery_payload(11, &values);
    assert_eq!(payload, b"11|swordman:90;Mage_2:100");
    let (id, decoded) = parse_server_champion_mastery(&payload).unwrap();
    assert_eq!(id, 11);
    assert_eq!(decoded.len(), 2);
    assert_eq!(decoded[1].champion_id, "Mage_2");
    assert_eq!(decoded[1].mastery, 100);
    assert_eq!(code(validate_champion_mastery_values(&[])), "NO_CHAMPIONS_SELECTED");
    assert_eq!(code(parse_server_champion_mastery(b"11|bad-id:5")), "INVALID_CHAMPION_ID");
    assert_eq!(code(parse_server_champion_mastery(b"11|a:101")), "MASTERY_OUT_OF_RANGE");
    assert_eq!(code(parse_server_champion_mastery(b"11|a")), "INVALID_MASTERY_ENTRY");
    assert_eq!(code(parse_server_champion_mastery(b"11|a:x")), "INVALID_MASTERY");
    assert_eq!(code(parse_server_champion_mastery(b"x|a:1")), "INVALID_ID");
}

#[test]
fn move_and_free_agent_payloads_round_trip() {
    assert_eq!(move_staff_payload(42, 85, Some("Analyst")), b"42|85|Analyst".to_vec());
    assert_eq!(move_staff_payload(42, 85, None), b"42|85".to_vec());
    assert_eq!(
        parse_move_staff_payload(&move_staff_payload(42, 85, Some("Analyst"))),
        Ok((42, 85, Some("Analyst".to_string())))
    );
    assert_eq!(parse_move_staff_payload(&move_staff_payload(3, 0, None)), Ok((3, 0, None)));
    assert_eq!(move_player_payload(7, 9), b"7|9".to_vec());
    assert_eq!(parse_move_player_payload(&move_player_payload(1234, 56)), Ok((1234, 56)));
    assert_eq!(free_agent_payload(7), b"7".to_vec());
    assert_eq!(free_agent_payload(0), b"0".to_vec());
    assert_eq!(parse_player_free_agent_payload(&free_agent_payload(98765)), Ok(98765));
}
