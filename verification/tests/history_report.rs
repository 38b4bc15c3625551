use tfm2_editor::history::GlobalHistoryCaptureMetrics;
use tfm2_editor::report::{
    duration_micros_u64, format_global_history_request_metric, global_history_robustness_report,
    GlobalHistoryRequestMetric, GlobalHistoryResponseMetrics,
};

#[test]
fn request_metric_lines() {
    assert_eq!(format_global_history_request_metric("GET_LEAGUES", &None), "GET_LEAGUES: not requested yet");
    let metric = GlobalHistoryRequestMetric {
        requested_id: Some(5),
        records_returned: 3,
        response_bytes: 120,
        response_micros: 42,
    };
    assert_eq!(
        format_global_history_request_metric("GET_TEAM_HISTORY", &Some(metric)),
        "GET_TEAM_HISTORY: requested_id=5 records=3 response_bytes=120 response_time_us=42"
    );
    let metric = GlobalHistoryRequestMetric { requested_id: None, ..metric };
    assert_eq!(
        format_global_history_request_metric("GET_LEAGUES", &Some(metric)),
        "GET_LEAGUES: records=3 response_bytes=120 response_time_us=42"
    );
}

#[test]
fn recording_keeps_the_last_answer_per_request() {
    let mut metrics = GlobalHistoryResponseMetrics::default();
    let first = GlobalHistoryRequestMetric { requested_id: Some(1), records_returned: 1, response_bytes: 10, response_micros: 5 };
    let second = GlobalHistoryRequestMetric { requested_id: Some(2), records_returned: 2, response_bytes: 20, response_micros: 6 };
    metrics.record("GET_TEAM_SCHEDULE", first);
    metrics.record("GET_TEAM_SCHEDULE", second);
    metrics.record("GET_UNKNOWN", first);
    assert_eq!(metrics.get_team_schedule.map(|m| m.requested_id), Some(Some(2)));
    assert!(metrics.get_leagues.is_none());
    assert!(metrics.get_team_history.is_none());
    metrics.record("GET_LEAGUES", first);
    assert_eq!(metrics.get_leagues.map(|m| m.records_returned), Some(1));
}

#[test]
fn report_before_the_first_capture() {
    let report = global_history_robustness_report(None, &GlobalHistoryResponseMetrics::default());
    assert_eq!(
        report,
        "=== GLOBAL HISTORY ROBUSTNESS ===\ncapture: not ready\nGET_LEAGUES: not requested yet\nGET_LEAGUE_COMPETITION: not requested yet\nGET_TEAM_SCHEDULE: not requested yet\nGET_TEAM_HISTORY: not requested yet"
    );
}

#[test]
fn report_after_a_capture() {
    let mut m = GlobalHistoryCaptureMetrics::default();
    m.league_source_records = 3;
    m.league_retained_records = 3;
    m.league_bytes = 300;
    m.league_competition_source_records = 2;
    m.league_competition_retained_records = 2;
    m.league_competition_bytes = 200;
    m.match_source_records = 50;
    m.match_scanned_records = 40;
    m.match_retained_records = 30;
    m.match_dropped_records = 10;
    m.match_oldest_retained_id = Some(11);
    m.match_newest_retained_id = None;
    m.match_indexed_teams = 4;
    m.match_index_entries = 60;
    m.match_bytes = 3000;
    m.snapshot_bytes = 3500;
    m.largest_record_bytes = 128;
    m.capture_micros = 77;
    m.match_retained_records = usize::MAX;
    let report = global_history_robustness_report(Some((2, &m)), &GlobalHistoryResponseMetrics::default());
    let expected = format!(
        "=== GLOBAL HISTORY ROBUSTNESS ===\n\
         capture_index=2 record_cap=10000 capture_time_us=77\n\
         leagues: source=3 retained=3 bytes=300\n\
         league_competitions: source=2 retained=2 bytes=200\n\
         matches: source=50 scanned=40 retained={max} dropped=10 bytes=3000\n\
         match_window: policy=highest_id_recent oldest_id=11 newest_id=none indexed_teams=4 index_entries=60\n\
         snapshot: retained_records={max} bytes=3500 largest_record_bytes=128\n\
         GET_LEAGUES: not requested yet\nGET_LEAGUE_COMPETITION: not requested yet\n\
         GET_TEAM_SCHEDULE: not requested yet\nGET_TEAM_HISTORY: not requested yet",
        max = usize::MAX
    );
    assert_eq!(report, expected);
}

#[test]
fn micros_saturate() {
    assert_eq!(duration_micros_u64(1_500), 1_500);
    assert_eq!(duration_micros_u64(u64::MAX as u128 + 1), u64::MAX);
}
