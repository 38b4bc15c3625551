use tfm2_editor::edits::{
    contract_default_dates,
    parse_runtime_toggle_payload, player_condition_payload, player_contract_payload,
    player_salary_payload, player_stats_payload, read_server_player_condition,
    read_server_player_contract, read_server_player_salary, read_server_player_stats,
    read_server_staff_contract, read_server_staff_stats, runtime_toggle_payload,
    runtime_toggle_resend, staff_contract_payload, staff_salary_payload, staff_stats_payload,
    validate_player_contract_amounts, validate_player_contract_extras, ContractAmountChecks,
    PlayerConditionValue, PlayerContractValue, PlayerSalaryValue, PlayerStatValues,
    StaffContractValue, StaffSalaryValue, StaffStatValues,
};
use tfm2_editor::error::BridgeError;
use tfm2_editor::overrides::OverrideQueue;
use tfm2_editor::players::{region_name, sorted_region_ids};
use tfm2_editor::wire::{parse_u16, parse_usize};

fn staff_stats() -> StaffStatValues {
    StaffStatValues {
        banpick: "10".to_string(),
        strategy: "20".to_string(),
        negotiation: "30".to_string(),
        judge_ability: "40".to_string(),
        judge_potential: "50".to_string(),
        feedback: "60".to_string(),
        power_analysis: "70".to_string(),
        control_coaching: "80".to_string(),
        judgment_coaching: "90".to_string(),
        mental_coaching: "100".to_string(),
    }
}

fn contract() -> PlayerContractValue {
    PlayerContractValue {
        team_id: 3,
        start_date: "2025-01-01".to_string(),
        end_date: "2027-12-31".to_string(),
        annual_salary: "50000".to_string(),
        transfer_fee: "0".to_string(),
        squad_status: "Core".to_string(),
        pog_enabled: true,
        pog_bonus: "100".to_string(),
        league_enabled: true,
        league_bonus: "200".to_string(),
        league_rank: "3".to_string(),
        match_enabled: false,
        match_bonus: String::new(),
        win_enabled: true,
        win_bonus: "50".to_string(),
    }
}

fn all_ok() -> ContractAmountChecks {
    ContractAmountChecks {
        annual_salary: Ok(()),
        transfer_fee: Ok(()),
        pog_bonus: Ok(()),
        league_bonus: Ok(()),
        match_bonus: Ok(()),
        win_bonus: Ok(()),
    }
}

#[test]
fn record_payloads_are_pipe_separated() {
    assert_eq!(staff_stats_payload(7, &staff_stats()), b"7|10|20|30|40|50|60|70|80|90|100".to_vec());
    let salary = StaffSalaryValue { annual_salary: "1200.5".to_string() };
    assert_eq!(staff_salary_payload(7, &salary), b"7|1200.5".to_vec());
    let salary = PlayerSalaryValue { annual_salary: "99".to_string() };
    assert_eq!(player_salary_payload(12, &salary), b"12|99".to_vec());
    let condition = PlayerConditionValue { stamina: "80".to_string(), condition: "75.5".to_string() };
    assert_eq!(player_condition_payload(4, &condition), b"4|80|75.5".to_vec());
    let staff = StaffContractValue {
        team_id: 9,
        start_date: "2025-01-01".to_string(),
        end_date: "2026-01-01".to_string(),
        annual_salary: "300".to_string(),
    };
    assert_eq!(staff_contract_payload(2, &staff), b"2|9|2025-01-01|2026-01-01|300".to_vec());
    assert_eq!(
        player_contract_payload(5, &contract()),
        b"5|3|2025-01-01|2027-12-31|50000|0|Core|1|100|1|200|3|0||1|50".to_vec()
    );
}

#[test]
fn record_payloads_read_back() {
    let (id, stats) = read_server_staff_stats(&staff_stats_payload(7, &staff_stats())).unwrap();
    assert_eq!(id, 7);
    assert_eq!(stats.banpick, "10");
    assert_eq!(stats.mental_coaching, "100");
    let player = PlayerStatValues {
        last_hit: "1".to_string(),
        skill_avoid: "2".to_string(),
        skill_hit: "3".to_string(),
        control_speed: "4".to_string(),
        positioning: "5".to_string(),
        judgement: "6".to_string(),
        mental: "7".to_string(),
        concentration: "8".to_string(),
        order: "9".to_string(),
        roaming: "10".to_string(),
        aggressive: "11".to_string(),
        ego: "12".to_string(),
    };
    let (id, back) = read_server_player_stats(&player_stats_payload(8, &player)).unwrap();
    assert_eq!(id, 8);
    assert_eq!(back.order, "9");
    assert_eq!(back.ego, "12");
    let (id, condition) = read_server_player_condition(b"4|80|75.5|extra").unwrap();
    assert_eq!(id, 4);
    assert_eq!(condition.condition, "75.5");
    let (id, salary) = read_server_player_salary(b"12|99").unwrap();
    assert_eq!((id, salary.annual_salary.as_str()), (12, "99"));
    assert_eq!(read_server_player_salary(b"12").err(), Some(BridgeError::MissingValue));
    assert_eq!(read_server_staff_stats(b"x|1").err(), Some(BridgeError::InvalidId));
    assert_eq!(read_server_staff_stats(b"7|1|2").err(), Some(BridgeError::MissingValue));
    assert_eq!(read_server_player_condition(&[0xff, 0xfe]).err(), Some(BridgeError::InvalidPayload));
}

#[test]
fn contracts_read_back_and_check_dates() {
    let (id, back) = read_server_player_contract(&player_contract_payload(5, &contract())).unwrap();
    assert_eq!(id, 5);
    assert_eq!(back.team_id, 3);
    assert!(back.pog_enabled && back.league_enabled && !back.match_enabled && back.win_enabled);
    assert_eq!(back.league_rank, "3");
    assert_eq!(back.win_bonus, "50");
    let (id, staff) = read_server_staff_contract(b"2|9|2025-01-01|2026-01-01|300").unwrap();
    assert_eq!((id, staff.team_id, staff.annual_salary.as_str()), (2, 9, "300"));
    assert_eq!(
        read_server_staff_contract(b"2|9|2027-01-01|2026-01-01|300").err(),
        Some(BridgeError::ContractEndBeforeStart)
    );
    assert_eq!(
        read_server_player_contract(b"5|3|2025-01-01|2027-12-31|1|0|Core|2|0").err(),
        Some(BridgeError::InvalidBoolean)
    );
}

#[test]
fn contract_extras_follow_the_enabled_bonuses() {
    assert_eq!(validate_player_contract_amounts(&contract(), &all_ok()), Ok(()));
    let mut status = contract();
    status.squad_status = "core".to_string();
    assert_eq!(validate_player_contract_extras(&status, &all_ok()), Err(BridgeError::InvalidSquadStatus));
    let mut rank = contract();
    rank.league_rank = "11".to_string();
    assert_eq!(validate_player_contract_extras(&rank, &all_ok()), Err(BridgeError::InvalidLeagueRank));
    rank.league_enabled = false;
    assert_eq!(validate_player_contract_extras(&rank, &all_ok()), Ok(()));
    let mut bad_match = all_ok();
    bad_match.match_bonus = Err(BridgeError::InvalidContractBonus);
    assert_eq!(validate_player_contract_extras(&contract(), &bad_match), Ok(()));
    let mut bad_win = all_ok();
    bad_win.win_bonus = Err(BridgeError::ContractBonusOutOfRange);
    assert_eq!(validate_player_contract_extras(&contract(), &bad_win), Err(BridgeError::ContractBonusOutOfRange));
    let mut both = all_ok();
    both.annual_salary = Err(BridgeError::InvalidSalary);
    both.transfer_fee = Err(BridgeError::TransferFeeOutOfRange);
    assert_eq!(validate_player_contract_amounts(&contract(), &both), Err(BridgeError::InvalidSalary));
    both.annual_salary = Ok(());
    assert_eq!(validate_player_contract_amounts(&contract(), &both), Err(BridgeError::TransferFeeOutOfRange));
}

#[test]
fn runtime_toggles_travel_as_team_and_flag() {
    assert_eq!(runtime_toggle_payload(85, true), b"85|1".to_vec());
    assert_eq!(runtime_toggle_payload(85, false), b"85|0".to_vec());
    assert_eq!(parse_runtime_toggle_payload(&runtime_toggle_payload(85, true)), Some((85, true)));
    assert_eq!(parse_runtime_toggle_payload(b"85|yes"), Some((85, false)));
    assert_eq!(parse_runtime_toggle_payload(b"85"), Some((85, false)));
    assert_eq!(parse_runtime_toggle_payload(b"|1"), None);
    assert_eq!(parse_runtime_toggle_payload(&[0xc3]), None);
    assert_eq!(runtime_toggle_resend(true, 3, 4), Some(b"4|1".to_vec()));
    assert_eq!(runtime_toggle_resend(true, 4, 4), None);
    assert_eq!(runtime_toggle_resend(false, 3, 4), None);
}

#[test]
fn ids_and_u16_fields() {
    assert_eq!(parse_usize(Some("42")), Ok(42));
    assert_eq!(parse_usize(Some("4 2")), Err(BridgeError::InvalidId));
    assert_eq!(parse_usize(None), Err(BridgeError::MissingValue));
    assert_eq!(parse_u16(Some("65535"), BridgeError::InvalidPotential), Ok(65535));
    assert_eq!(parse_u16(Some("65536"), BridgeError::InvalidPotential), Err(BridgeError::InvalidPotential));
}

#[test]
fn region_names_and_ids() {
    assert_eq!(region_name(Some(0)), "Korea");
    assert_eq!(region_name(Some(3)), "North America");
    assert_eq!(region_name(Some(5)), "Japan");
    assert_eq!(region_name(Some(17)), "Region 17");
    assert_eq!(region_name(None), "");
    assert_eq!(sorted_region_ids(&[4, 1, 4, 0, 2, 1]), vec![0, 1, 2, 4]);
    assert_eq!(sorted_region_ids(&[]), Vec::<usize>::new());
}

#[test]
fn overrides_last_three_ticks() {
    let mut queue: OverrideQueue<String> = OverrideQueue::new();
    queue.queue(7, "2026-12-31".to_string());
    queue.queue(9, "2027-12-31".to_string());
    queue.tick();
    queue.tick();
    assert_eq!(queue.get(7).map(|v| v.as_str()), Some("2026-12-31"));
    queue.queue(9, "2028-12-31".to_string());
    queue.tick();
    assert_eq!(queue.get(7), None);
    assert_eq!(queue.get(9).map(|v| v.as_str()), Some("2028-12-31"));
    assert_eq!(queue.pending_ids(), vec![9]);
    queue.tick();
    queue.tick();
    assert!(queue.pending_ids().is_empty());
    queue.queue(1, "x".to_string());
    queue.clear();
    assert_eq!(queue.get(1), None);
}

#[test]
fn contract_defaults_start_on_the_latest_game_date() {
    let dates = |texts: &[&str]| {
        contract_default_dates(&texts.iter().map(|t| t.to_string()).collect::<Vec<_>>())
    };
    assert_eq!(dates(&[]), Ok(("2026-01-01".to_string(), "2029-12-31".to_string())));
    assert_eq!(
        dates(&["2030-12-31", "2031-05-02T10:00:00", "short", "2029-01-01"]),
        Ok(("2031-05-02".to_string(), "2034-12-31".to_string()))
    );
    assert_eq!(dates(&["+999-01-01"]), Ok(("+999-01-01".to_string(), "1002-12-31".to_string())));
    assert_eq!(dates(&["-999-01-01"]), Ok(("-999-01-01".to_string(), "-996-12-31".to_string())));
    assert_eq!(dates(&["Ren\u{e9}-12-31"]), Err(BridgeError::InvalidGameDate));
    assert_eq!(dates(&["abcd-12-31"]), Err(BridgeError::InvalidGameDate));
}
