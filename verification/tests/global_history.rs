use std::collections::HashMap;
use tfm2_editor::history::{
    capture_match_record, filter_global_team_records, global_compact_league_competition_value,
    global_compact_league_value, global_compact_match_value, global_json_copy_fields,
    global_json_is_completed_match, global_json_normal_team_id, global_json_with_id,
    index_global_match_for_team, select_recent_global_match_ids, GlobalHistoryCaptureMetrics,
    GlobalHistorySnapshot, GlobalMatchRecord, GLOBAL_HISTORY_RECORD_CAP,
};
use tfm2_editor::json::{global_json_value_to_string, global_json_write_string, json_member, JsonValue};
use tfm2_editor::responses::{
    response_err, response_ok_global_league_competition, response_ok_global_leagues,
    response_ok_global_team_records, response_ok_pong, response_ok_recruitment_settings,
};
use tfm2_editor::error::BridgeError;

fn from_serde(value: &serde_json::Value) -> JsonValue {
    match value {
        serde_json::Value::Null => JsonValue::Null,
        serde_json::Value::Bool(b) => JsonValue::Bool(*b),
        serde_json::Value::Number(n) => JsonValue::Number(n.to_string()),
        serde_json::Value::String(s) => JsonValue::Str(s.clone()),
        serde_json::Value::Array(values) => JsonValue::Array(values.iter().map(from_serde).collect()),
        serde_json::Value::Object(members) => JsonValue::Object(
            members.iter().map(|(k, v)| (k.clone(), from_serde(v))).collect(),
        ),
    }
}

fn to_serde(value: &JsonValue) -> serde_json::Value {
    serde_json::from_str(&global_json_value_to_string(value)).unwrap()
}

fn parse(text: &str) -> JsonValue {
    from_serde(&serde_json::from_str(text).unwrap())
}

#[test]
fn global_history_responses_use_production_bridge_identity() {
    let leagues = response_ok_global_leagues(7, &[r#"{"id":0,"name":"LCK"}"#.to_string()]);
    assert!(leagues.starts_with("OK|GLOBAL_LEAGUES|0.2.59|0.5.5|7|1|"));

    let competition =
        response_ok_global_league_competition(7, 0, r#"{"id":0,"league_type":"Spring"}"#);
    assert!(competition.starts_with("OK|GLOBAL_LEAGUE_COMPETITION|0.2.59|0.5.5|7|0|"));
}

#[test]
fn global_team_response_preserves_capture_player_and_requested_team_ids() {
    let response = response_ok_global_team_records(
        "GLOBAL_TEAM_HISTORY",
        7,
        85,
        89,
        &[r#"{"id":787}"#.to_string()],
    );
    assert!(response.starts_with("OK|GLOBAL_TEAM_HISTORY|0.2.59|0.5.5|7|85|89|1|"));
}

#[test]
fn fixed_responses_carry_versions_flags_and_error_codes() {
    assert_eq!(response_ok_pong(), "OK|PONG|0.2.79|19|0.5.8");
    assert_eq!(response_ok_recruitment_settings(true, false), "OK|RECRUITMENT|1|0");
    assert_eq!(response_err(BridgeError::InvalidId), "ERR|INVALID_ID");
    assert_eq!(
        response_ok_global_leagues(3, &["A|B".to_string(), "C".to_string()]),
        "OK|GLOBAL_LEAGUES|0.2.59|0.5.5|3|2|417c42;43"
    );
}

#[test]
fn global_match_json_helpers_decode_normal_team_and_completed_state() {
    let value = parse(
        r#"{"team1":{"Normal":85},"team2":{"Normal":89},"running_state":{"End":{"winner":85}}}"#,
    );
    assert_eq!(global_json_normal_team_id(&value, "team1"), Some(85));
    assert_eq!(global_json_normal_team_id(&value, "team2"), Some(89));
    assert!(global_json_is_completed_match(&value));
}

#[test]
fn normal_team_id_needs_a_non_negative_integer() {
    let value = parse(r#"{"team1":{"Normal":-1},"team2":{"Normal":2.5},"running_state":"Running"}"#);
    assert_eq!(global_json_normal_team_id(&value, "team1"), None);
    assert_eq!(global_json_normal_team_id(&value, "team2"), None);
    assert_eq!(global_json_normal_team_id(&value, "team3"), None);
    assert!(!global_json_is_completed_match(&value));
}

#[test]
fn bridge_local_json_encoder_round_trips_nested_values_and_escaping() {
    let value: serde_json::Value = serde_json::from_str(
        r#"{
            "null": null,
            "booleans": [true, false],
            "numbers": [0, 42, -3.5],
            "quote": "A\"B",
            "backslash": "A\\B",
            "controls": "line\nfeed\rcarriage\tend\u0008\u000c\u0001",
            "unicode": "René 홍길동 日本語",
            "array": [true, false, null, 42, {"nested": [1, 2, 3]}],
            "object": {"key\"\\": "value"}
        }"#,
    )
    .unwrap();
    let model = from_serde(&value);

    let encoded = global_json_value_to_string(&model);
    assert_eq!(encoded, global_json_value_to_string(&model));
    assert!(!encoded.chars().any(|ch| ch <= '\u{001f}'));

    let decoded: serde_json::Value = serde_json::from_str(&encoded).unwrap();
    assert_eq!(decoded, value);
}

#[test]
fn json_strings_escape_quotes_backslashes_and_controls() {
    let text = JsonValue::Str("a\"b\\c\u{1}\u{1f}é".to_string());
    assert_eq!(global_json_value_to_string(&text), "\"a\\\"b\\\\c\\u0001\\u001fé\"");
    assert_eq!(global_json_value_to_string(&JsonValue::Array(vec![])), "[]");
    assert_eq!(global_json_value_to_string(&JsonValue::Object(vec![])), "{}");
}

#[test]
fn global_json_with_id_uses_bridge_local_encoder_and_preserves_record_id() {
    let value = parse(r#"{"name": "LCK", "active": true}"#);
    let encoded = global_json_with_id(73, value).unwrap();
    assert_eq!(encoded, global_json_with_id(73, parse(r#"{"name": "LCK", "active": true}"#)).unwrap());

    let decoded: serde_json::Value = serde_json::from_str(&encoded).unwrap();
    assert_eq!(decoded.get("id").and_then(serde_json::Value::as_u64), Some(73));
    assert_eq!(decoded.get("name").and_then(serde_json::Value::as_str), Some("LCK"));
    assert_eq!(decoded.get("active").and_then(serde_json::Value::as_bool), Some(true));
}

#[test]
fn record_ids_go_in_key_order_and_only_objects_take_them() {
    assert_eq!(
        global_json_with_id(5, parse(r#"{"a":1,"z":2,"id":9}"#)).unwrap(),
        r#"{"a":1,"id":5,"z":2}"#
    );
    assert_eq!(global_json_with_id(5, JsonValue::Null), Err(BridgeError::GlobalRecordNotObject));
}

#[test]
fn copied_fields_keep_only_named_members_in_key_order() {
    let source = parse(r#"{"name":"LCK","region_id":3,"division":1,"extra":true}"#);
    let copied = global_json_copy_fields(&source, &["region_id", "name", "missing"]);
    let expected: serde_json::Value = serde_json::from_str(r#"{"name": "LCK", "region_id": 3}"#).unwrap();
    assert_eq!(to_serde(&JsonValue::Object(copied)), expected);
    let league = global_compact_league_value(&source);
    assert_eq!(
        global_json_value_to_string(&league),
        r#"{"division":1,"name":"LCK","region_id":3}"#
    );
    assert!(json_member(&league, "extra").is_none());
}

fn snapshot_with(records: Vec<GlobalMatchRecord>, indices: HashMap<usize, Vec<usize>>) -> GlobalHistorySnapshot {
    GlobalHistorySnapshot {
        capture_index: 3,
        league_records: Vec::new(),
        league_competition_records: HashMap::new(),
        match_records: records,
        team_match_indices: indices,
        metrics: GlobalHistoryCaptureMetrics::default(),
    }
}

#[test]
fn global_history_snapshot_filters_requested_team_and_completed_state() {
    let snapshot = snapshot_with(
        vec![
            GlobalMatchRecord { json: r#"{"id":787}"#.to_string(), completed: true },
            GlobalMatchRecord { json: r#"{"id":788}"#.to_string(), completed: false },
            GlobalMatchRecord { json: r#"{"id":789}"#.to_string(), completed: true },
        ],
        HashMap::from([(85, vec![0, 1]), (89, vec![0]), (90, vec![1]), (91, vec![2]), (92, vec![2])]),
    );

    assert_eq!(filter_global_team_records(&snapshot, 85, false).len(), 2);
    assert_eq!(filter_global_team_records(&snapshot, 85, true).len(), 1);
    assert_eq!(filter_global_team_records(&snapshot, 89, true).len(), 1);
    assert!(filter_global_team_records(&snapshot, 99, false).is_empty());
}

#[test]
fn recent_match_selector_is_bounded_deterministic_and_keeps_highest_ids() {
    assert!(select_recent_global_match_ids(Vec::new(), 10).is_empty());
    assert_eq!(select_recent_global_match_ids(vec![42], 10), vec![42]);

    let ascending = (0..12_500).collect::<Vec<_>>();
    let mut shuffled = ascending.clone();
    shuffled.reverse();
    let selected = select_recent_global_match_ids(ascending, GLOBAL_HISTORY_RECORD_CAP);
    let selected_again = select_recent_global_match_ids(shuffled, GLOBAL_HISTORY_RECORD_CAP);

    assert_eq!(selected.len(), GLOBAL_HISTORY_RECORD_CAP);
    assert_eq!(selected, selected_again);
    assert_eq!(selected.first().copied(), Some(2_500));
    assert_eq!(selected.last().copied(), Some(12_499));
}

#[test]
fn recent_match_selector_sorts_what_it_keeps() {
    assert_eq!(select_recent_global_match_ids(vec![5, 1, 9, 3], 3), vec![3, 5, 9]);
    assert_eq!(select_recent_global_match_ids(vec![5, 1, 9, 3], 0), Vec::<usize>::new());
}

#[test]
fn compact_league_competition_projection_preserves_editor_fields_only() {
    let source_text = r#"{
        "league_type": "Spring",
        "finalized": true,
        "unused_root": {"large": [1, 2, 3]},
        "standings": {
            "85": {
                "win": 4, "lose": 1, "set_win": 9, "set_lose": 3,
                "kill": 120, "death": 80, "assist": 300, "unused": 999
            }
        },
        "statistics": {
            "11": {
                "matches": 5, "wins": 4, "kills": 30, "deaths": 8, "assists": 41,
                "mvp": 2, "rating": 91, "gold": 12345, "dealing": 45678,
                "healing": 10, "tanking": 9000, "solo_kill": 3, "solo_killed": 1,
                "unused": "drop",
                "champion_detail": {
                    "swordman": {
                        "matches": 3, "wins": 3, "rating": 95, "dealing": 222,
                        "healing": 0, "tanking": 100, "unused": 123
                    }
                }
            }
        }
    }"#;
    let source: serde_json::Value = serde_json::from_str(source_text).unwrap();
    let compact = to_serde(&global_compact_league_competition_value(&from_serde(&source)));
    assert_eq!(compact.get("league_type"), source.get("league_type"));
    assert_eq!(compact.get("finalized"), source.get("finalized"));
    assert!(compact.get("unused_root").is_none());
    assert!(compact["standings"]["85"].get("unused").is_none());
    assert!(compact["statistics"]["11"].get("unused").is_none());
    assert!(compact["statistics"]["11"]["champion_detail"]["swordman"].get("unused").is_none());
    assert_eq!(compact["statistics"]["11"]["rating"], 91);
    assert_eq!(compact["standings"]["85"]["set_win"], 9);
}

#[test]
fn compact_match_projection_preserves_schedule_and_history_contract() {
    let source = parse(
        r#"{
            "date": "2034-06-10T16:30:00",
            "is_practice": false,
            "team1": {"Normal": 85, "unused": "drop"},
            "team2": {"Normal": 89},
            "replays": [1001, 1002, 1003],
            "running_state": {
                "End": {
                    "team1_score": 2,
                    "team2_score": 1,
                    "winner": 85,
                    "unused": {"large": true}
                }
            },
            "unused_match_payload": [1, 2, 3, 4]
        }"#,
    );

    let compact_model = global_compact_match_value(&source);
    assert_eq!(global_json_normal_team_id(&compact_model, "team1"), Some(85));
    assert_eq!(global_json_normal_team_id(&compact_model, "team2"), Some(89));
    assert!(global_json_is_completed_match(&compact_model));
    let compact = to_serde(&compact_model);
    assert_eq!(compact["replays"].as_array().map(Vec::len), Some(3));
    assert_eq!(compact["running_state"]["End"]["winner"], 85);
    assert!(compact.get("unused_match_payload").is_none());
    assert!(compact["running_state"]["End"].get("unused").is_none());
}

#[test]
fn running_matches_keep_their_state_text() {
    let compact = global_compact_match_value(&parse(r#"{"running_state":"Running","team1":{"Cpu":1}}"#));
    assert_eq!(global_json_value_to_string(&compact), r#"{"running_state":"Running"}"#);
    let other = global_compact_match_value(&parse(r#"{"running_state":"Waiting"}"#));
    assert_eq!(global_json_value_to_string(&other), "{}");
}

#[test]
fn team_match_index_scales_to_ten_thousand_records_and_filters_before_clone() {
    let mut snapshot = GlobalHistorySnapshot::default();
    for record_index in 0..GLOBAL_HISTORY_RECORD_CAP {
        let team_id = record_index % 200;
        snapshot.match_records.push(GlobalMatchRecord {
            json: format!(r#"{{"id":{record_index}}}"#),
            completed: record_index % 2 == 0,
        });
        index_global_match_for_team(&mut snapshot.team_match_indices, Some(team_id), record_index);
    }

    assert_eq!(filter_global_team_records(&snapshot, 17, false).len(), 50);
    assert_eq!(filter_global_team_records(&snapshot, 17, true).len(), 0);
    assert_eq!(filter_global_team_records(&snapshot, 18, true).len(), 50);
    assert!(filter_global_team_records(&snapshot, 999, false).is_empty());
}

#[test]
fn very_large_single_team_history_remains_bounded_by_snapshot_cap() {
    let mut snapshot = GlobalHistorySnapshot::default();
    for record_index in 0..GLOBAL_HISTORY_RECORD_CAP {
        snapshot.match_records.push(GlobalMatchRecord {
            json: format!(r#"{{"id":{record_index}}}"#),
            completed: true,
        });
        index_global_match_for_team(&mut snapshot.team_match_indices, Some(85), record_index);
    }

    let records = filter_global_team_records(&snapshot, 85, true);
    assert_eq!(records.len(), GLOBAL_HISTORY_RECORD_CAP);
    assert!(records.first().is_some_and(|record| record.contains(r#""id":0"#)));
    assert!(records.last().is_some_and(|record| record.contains(r#""id":9999"#)));
}

#[test]
fn captured_matches_are_indexed_for_both_teams_once() {
    let mut snapshot = GlobalHistorySnapshot::default();
    let same = parse(r#"{"team1":{"Normal":4},"team2":{"Normal":4},"running_state":{"End":{"winner":4}}}"#);
    let both = parse(r#"{"team1":{"Normal":4},"team2":{"Normal":6}}"#);
    capture_match_record(&mut snapshot, 10, Some(&same));
    capture_match_record(&mut snapshot, 11, Some(&both));
    capture_match_record(&mut snapshot, 12, None);
    assert_eq!(snapshot.match_records.len(), 2);
    assert_eq!(snapshot.match_records[0].json, r#"{"id":10,"running_state":{"End":{"winner":4}},"team1":{"Normal":4},"team2":{"Normal":4}}"#);
    assert!(snapshot.match_records[0].completed);
    assert!(!snapshot.match_records[1].completed);
    assert_eq!(snapshot.team_match_indices.get(&4), Some(&vec![0, 1]));
    assert_eq!(snapshot.team_match_indices.get(&6), Some(&vec![1]));
    assert_eq!(snapshot.metrics.match_scanned_records, 3);
    assert_eq!(snapshot.metrics.match_index_entries, 3);
}

#[test]
fn json_strings_escape_every_control_character() {
    let mut out = String::new();
    global_json_write_string(&mut out, "a\u{1}\n\t\"\\\u{1f}\u{7f}é");
    assert_eq!(out, "\"a\\u0001\\n\\t\\\"\\\\\\u001f\u{7f}é\"");
    assert!(out.chars().all(|c| (c as u32) > 0x1f));
    let value = JsonValue::Array(vec![JsonValue::Str("x\u{0}y".to_string()), JsonValue::Number("1.5".to_string())]);
    let text = global_json_value_to_string(&value);
    assert_eq!(text, "[\"x\\u0000y\",1.5]");
    assert!(text.chars().all(|c| (c as u32) > 0x1f));
}
