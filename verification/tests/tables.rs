use tfm2_editor::tables::{
    region_values_text, replay_strategy_table, sort_by_region, team_management_table, ManagementRecord, ReplayRecord,
};

fn replay(blue: usize, red: usize, blue_win: bool) -> ReplayRecord {
    ReplayRecord {
        blue_team_id: blue,
        red_team_id: red,
        blue_team_win: blue_win,
        blue_strategy: "focused=Top".to_string(),
        red_strategy: "focused=Bottom\tx".to_string(),
    }
}

#[test]
fn replay_rows_name_the_side_and_the_set_result() {
    let table = replay_strategy_table(
        7,
        &vec![
            (1, None),
            (2, Some(replay(7, 9, true))),
            (3, Some(replay(9, 7, true))),
            (4, Some(replay(5, 6, false))),
        ],
    );
    assert_eq!(
        table,
        "1\tMISSING\t\t\t\t\t\n2\tOK\tBlue\t7\t9\t1\tfocused=Top\n3\tOK\tRed\t9\t7\t0\tfocused=Bottom x\n4\tTEAM_NOT_IN_REPLAY\t\t5\t6\t\t"
    );
    assert_eq!(replay_strategy_table(7, &Vec::new()), "");
}

#[test]
fn management_rows_list_lineup_lists_and_counts() {
    let record = ManagementRecord {
        lineup: vec![Some((11, Some("Ace".to_string()))), None, Some((12, None)), None, None, Some((13, None))],
        watched_players: vec![(21, None)],
        no_transfer_players: vec![],
        release_players: vec![(22, Some("Bo".to_string()))],
        watched_staffs: vec![(31, None)],
        release_staffs: vec![(32, Some("Cy".to_string()))],
        pending_installments: 2,
        resale_clauses: 0,
        scout_dispatch_active: true,
        merchandise_products: 3,
        champion_tiers: 4,
        personal_tactics: 5,
    };
    let expected = [
        "lineup\tTop\t11\tAce",
        "lineup\tJungle\t\t",
        "lineup\tMid\t12\tPlayer 12",
        "lineup\tBottom\t\t",
        "lineup\tSupport\t\t",
        "lineup\tUnknown\t13\tPlayer 13",
        "watched_player\t21\tPlayer 21",
        "release_player\t22\tBo",
        "watched_staff\t31\tStaff 31",
        "release_staff\t32\tCy",
        "metric\tpending_installments\t2",
        "metric\tresale_clauses\t0",
        "metric\tscout_dispatch\tActive",
        "metric\tmerchandise_products\t3",
        "metric\tchampion_tiers\t4",
        "metric\tpersonal_tactics\t5",
    ]
    .join("\n");
    assert_eq!(team_management_table(&record), expected);
}

#[test]
fn region_values_are_written_in_region_order() {
    let sorted = sort_by_region(vec![(3, "30".to_string()), (1, "10.5".to_string()), (2, "0".to_string())]);
    assert_eq!(sorted.iter().map(|e| e.0).collect::<Vec<_>>(), vec![1, 2, 3]);
    assert_eq!(region_values_text(&sorted, ':', ','), "1:10.5,2:0,3:30");
    assert_eq!(region_values_text(&sorted, '=', ';'), "1=10.5;2=0;3=30");
    assert_eq!(region_values_text(&Vec::new(), ':', ','), "");
}
