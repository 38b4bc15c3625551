//! The robustness report of the global history: what the last capture kept
//! and how the history requests were last answered.

use vstd::prelude::*;
use crate::history::{GlobalHistoryCaptureMetrics, GLOBAL_HISTORY_RECORD_CAP, sat_add};
use crate::text::{decimal_text, extend_str, push_decimal, string_of};

verus! {

broadcast use vstd::seq_lib::group_seq_properties;

/// How one history request was last answered.
#[derive(Clone, Copy, Debug)]
pub struct GlobalHistoryRequestMetric {
    pub requested_id: Option<usize>,
    pub records_returned: usize,
    pub response_bytes: usize,
    pub response_micros: u64,
}

/// The last answer to each of the four history requests.
#[derive(Clone, Copy, Debug)]
pub struct GlobalHistoryResponseMetrics {
    pub get_leagues: Option<GlobalHistoryRequestMetric>,
    pub get_league_competition: Option<GlobalHistoryRequestMetric>,
    pub get_team_schedule: Option<GlobalHistoryRequestMetric>,
    pub get_team_history: Option<GlobalHistoryRequestMetric>,
}

impl Default for GlobalHistoryResponseMetrics {
    fn default() -> (r: Self)
        ensures
            r.get_leagues is None,
            r.get_league_competition is None,
            r.get_team_schedule is None,
            r.get_team_history is None,
    {
        GlobalHistoryResponseMetrics {
            get_leagues: None,
            get_league_competition: None,
            get_team_schedule: None,
            get_team_history: None,
        }
    }
}

impl GlobalHistoryResponseMetrics {
    /// Keeps `metric` as the last answer to the request named `kind`; a
    /// name that is none of the four changes nothing.
    pub fn record(&mut self, kind: &str, metric: GlobalHistoryRequestMetric)
        ensures
            final(self).get_leagues == (if kind@ == "GET_LEAGUES"@ {
                Some(metric)
            } else {
                old(self).get_leagues
            }),
            final(self).get_league_competition == (if kind@ == "GET_LEAGUE_COMPETITION"@ {
                Some(metric)
            } else {
                old(self).get_league_competition
            }),
            final(self).get_team_schedule == (if kind@ == "GET_TEAM_SCHEDULE"@ {
                Some(metric)
            } else {
                old(self).get_team_schedule
            }),
            final(self).get_team_history == (if kind@ == "GET_TEAM_HISTORY"@ {
                Some(metric)
            } else {
                old(self).get_team_history
            }),
    {
        let k = crate::text::chars_of(kind);
        proof {
            reveal_strlit("GET_LEAGUES");
            reveal_strlit("GET_LEAGUE_COMPETITION");
            reveal_strlit("GET_TEAM_SCHEDULE");
            reveal_strlit("GET_TEAM_HISTORY");
            assert("GET_LEAGUES"@.len() == 11);
            assert("GET_LEAGUE_COMPETITION"@.len() == 22);
            assert("GET_TEAM_SCHEDULE"@.len() == 17);
            assert("GET_TEAM_HISTORY"@.len() == 16);
            assert("GET_TEAM_SCHEDULE"@[9] != "GET_TEAM_HISTORY"@[9]);
        }
        if crate::text::chars_eq_str(&k, "GET_LEAGUES") {
            self.get_leagues = Some(metric);
        } else if crate::text::chars_eq_str(&k, "GET_LEAGUE_COMPETITION") {
            self.get_league_competition = Some(metric);
        } else if crate::text::chars_eq_str(&k, "GET_TEAM_SCHEDULE") {
            self.get_team_schedule = Some(metric);
        } else if crate::text::chars_eq_str(&k, "GET_TEAM_HISTORY") {
            self.get_team_history = Some(metric);
        }
    }
}

/// A duration in microseconds as a `u64`, the largest `u64` when it does
/// not fit.
pub fn duration_micros_u64(micros: u128) -> (r: u64)
    ensures
        r == (if micros <= u64::MAX {
            micros as u64
        } else {
            u64::MAX
        }),
{
    if micros <= u64::MAX as u128 {
        micros as u64
    } else {
        u64::MAX
    }
}

/// One report line for a request: `not requested yet`, or the id that was
/// asked for (if any), the records and bytes returned and the time taken.
pub open spec fn metric_text(label: Seq<char>, metric: Option<GlobalHistoryRequestMetric>) -> Seq<char> {
    match metric {
        None => label + ": not requested yet"@,
        Some(m) => label + ":"@ + match m.requested_id {
            Some(id) => " requested_id="@ + decimal_text(id as nat),
            None => Seq::empty(),
        } + " records="@ + decimal_text(m.records_returned as nat) + " response_bytes="@ + decimal_text(
            m.response_bytes as nat,
        ) + " response_time_us="@ + decimal_text(m.response_micros as nat),
    }
}

fn push_metric(out: &mut Vec<char>, label: &str, metric: &Option<GlobalHistoryRequestMetric>)
    ensures
        final(out)@ == old(out)@ + metric_text(label@, *metric),
{
    extend_str(out, label);
    match metric {
        None => {
            extend_str(out, ": not requested yet");
        },
        Some(m) => {
            extend_str(out, ":");
            let ghost after_label = out@;
            if let Some(id) = m.requested_id {
                extend_str(out, " requested_id=");
                push_decimal(out, id as u128);
            }
            let ghost requested = out@.skip(after_label.len() as int);
            assert(requested == match m.requested_id {
                Some(id) => " requested_id="@ + decimal_text(id as nat),
                None => Seq::<char>::empty(),
            });
            extend_str(out, " records=");
            push_decimal(out, m.records_returned as u128);
            extend_str(out, " response_bytes=");
            push_decimal(out, m.response_bytes as u128);
            extend_str(out, " response_time_us=");
            push_decimal(out, m.response_micros as u128);
        },
    }
    assert(out@ =~= old(out)@ + metric_text(label@, *metric));
}

/// One report line for a request.
pub fn format_global_history_request_metric(label: &str, metric: &Option<GlobalHistoryRequestMetric>) -> (r: String)
    ensures
        r@ == metric_text(label@, *metric),
{
    let mut out: Vec<char> = Vec::new();
    push_metric(&mut out, label, metric);
    assert(out@ =~= metric_text(label@, *metric));
    string_of(&out)
}

/// An optional id, or `none`.
pub open spec fn id_or_none(id: Option<usize>) -> Seq<char> {
    match id {
        Some(n) => decimal_text(n as nat),
        None => "none"@,
    }
}

fn push_id_or_none(out: &mut Vec<char>, id: Option<usize>)
    ensures
        final(out)@ == old(out)@ + id_or_none(id),
{
    match id {
        Some(n) => push_decimal(out, n as u128),
        None => extend_str(out, "none"),
    }
}

/// `capture_index=.. record_cap=.. capture_time_us=..`
#[verifier::opaque]
pub open spec fn capture_line(capture_index: usize, m: GlobalHistoryCaptureMetrics) -> Seq<char> {
    "capture_index="@ + decimal_text(capture_index as nat) + " record_cap="@ + decimal_text(
        GLOBAL_HISTORY_RECORD_CAP as nat,
    ) + " capture_time_us="@ + decimal_text(m.capture_micros as nat) + "\n"@
}

/// `leagues: source=.. retained=.. bytes=..`
#[verifier::opaque]
pub open spec fn leagues_line(m: GlobalHistoryCaptureMetrics) -> Seq<char> {
    "leagues: source="@ + decimal_text(m.league_source_records as nat) + " retained="@ + decimal_text(
        m.league_retained_records as nat,
    ) + " bytes="@ + decimal_text(m.league_bytes as nat) + "\n"@
}

/// `league_competitions: source=.. retained=.. bytes=..`
#[verifier::opaque]
pub open spec fn competitions_line(m: GlobalHistoryCaptureMetrics) -> Seq<char> {
    "league_competitions: source="@ + decimal_text(m.league_competition_source_records as nat) + " retained="@
        + decimal_text(m.league_competition_retained_records as nat) + " bytes="@ + decimal_text(
        m.league_competition_bytes as nat,
    ) + "\n"@
}

/// `matches: source=.. scanned=.. retained=.. dropped=.. bytes=..`
#[verifier::opaque]
pub open spec fn matches_line(m: GlobalHistoryCaptureMetrics) -> Seq<char> {
    "matches: source="@ + decimal_text(m.match_source_records as nat) + " scanned="@ + decimal_text(
        m.match_scanned_records as nat,
    ) + " retained="@ + decimal_text(m.match_retained_records as nat) + " dropped="@ + decimal_text(
        m.match_dropped_records as nat,
    ) + " bytes="@ + decimal_text(m.match_bytes as nat) + "\n"@
}

/// `match_window: policy=highest_id_recent oldest_id=.. newest_id=.. indexed_teams=.. index_entries=..`
#[verifier::opaque]
pub open spec fn window_line(m: GlobalHistoryCaptureMetrics) -> Seq<char> {
    "match_window: policy=highest_id_recent oldest_id="@ + id_or_none(m.match_oldest_retained_id)
        + " newest_id="@ + id_or_none(m.match_newest_retained_id) + " indexed_teams="@ + decimal_text(
        m.match_indexed_teams as nat,
    ) + " index_entries="@ + decimal_text(m.match_index_entries as nat) + "\n"@
}

/// `snapshot: retained_records=.. bytes=.. largest_record_bytes=..`, the
/// retained records summed with saturation.
#[verifier::opaque]
pub open spec fn snapshot_line(m: GlobalHistoryCaptureMetrics) -> Seq<char> {
    "snapshot: retained_records="@ + decimal_text(
        sat_add(
            sat_add(m.league_retained_records, m.league_competition_retained_records as nat),
            m.match_retained_records as nat,
        ) as nat,
    ) + " bytes="@ + decimal_text(m.snapshot_bytes as nat) + " largest_record_bytes="@ + decimal_text(
        m.largest_record_bytes as nat,
    ) + "\n"@
}

/// The lines about a capture, in order.
pub open spec fn capture_text(capture_index: usize, m: GlobalHistoryCaptureMetrics) -> Seq<char> {
    capture_line(capture_index, m) + leagues_line(m) + competitions_line(m) + matches_line(m) + window_line(m)
        + snapshot_line(m)
}

fn push_capture_line(out: &mut Vec<char>, capture_index: usize, m: &GlobalHistoryCaptureMetrics)
    ensures
        final(out)@ == old(out)@ + capture_line(capture_index, *m),
{
    reveal(capture_line);
    extend_str(out, "capture_index=");
    push_decimal(out, capture_index as u128);
    extend_str(out, " record_cap=");
    push_decimal(out, GLOBAL_HISTORY_RECORD_CAP as u128);
    extend_str(out, " capture_time_us=");
    push_decimal(out, m.capture_micros as u128);
    extend_str(out, "\n");
    assert(out@ =~= old(out)@ + capture_line(capture_index, *m));
}

fn push_leagues_line(out: &mut Vec<char>, m: &GlobalHistoryCaptureMetrics)
    ensures
        final(out)@ == old(out)@ + leagues_line(*m),
{
    reveal(leagues_line);
    extend_str(out, "leagues: source=");
    push_decimal(out, m.league_source_records as u128);
    extend_str(out, " retained=");
    push_decimal(out, m.league_retained_records as u128);
    extend_str(out, " bytes=");
    push_decimal(out, m.league_bytes as u128);
    extend_str(out, "\n");
    assert(out@ =~= old(out)@ + leagues_line(*m));
}

fn push_competitions_line(out: &mut Vec<char>, m: &GlobalHistoryCaptureMetrics)
    ensures
        final(out)@ == old(out)@ + competitions_line(*m),
{
    reveal(competitions_line);
    extend_str(out, "league_competitions: source=");
    push_decimal(out, m.league_competition_source_records as u128);
    extend_str(out, " retained=");
    push_decimal(out, m.league_competition_retained_records as u128);
    extend_str(out, " bytes=");
    push_decimal(out, m.league_competition_bytes as u128);
    extend_str(out, "\n");
    assert(out@ =~= old(out)@ + competitions_line(*m));
}

fn push_matches_line(out: &mut Vec<char>, m: &GlobalHistoryCaptureMetrics)
    ensures
        final(out)@ == old(out)@ + matches_line(*m),
{
    reveal(matches_line);
    extend_str(out, "matches: source=");
    push_decimal(out, m.match_source_records as u128);
    extend_str(out, " scanned=");
    push_decimal(out, m.match_scanned_records as u128);
    extend_str(out, " retained=");
    push_decimal(out, m.match_retained_records as u128);
    extend_str(out, " dropped=");
    push_decimal(out, m.match_dropped_records as u128);
    extend_str(out, " bytes=");
    push_decimal(out, m.match_bytes as u128);
    extend_str(out, "\n");
    assert(out@ =~= old(out)@ + matches_line(*m));
}

fn push_window_line(out: &mut Vec<char>, m: &GlobalHistoryCaptureMetrics)
    ensures
        final(out)@ == old(out)@ + window_line(*m),
{
    reveal(window_line);
    extend_str(out, "match_window: policy=highest_id_recent oldest_id=");
    push_id_or_none(out, m.match_oldest_retained_id);
    extend_str(out, " newest_id=");
    push_id_or_none(out, m.match_newest_retained_id);
    extend_str(out, " indexed_teams=");
    push_decimal(out, m.match_indexed_teams as u128);
    extend_str(out, " index_entries=");
    push_decimal(out, m.match_index_entries as u128);
    extend_str(out, "\n");
    assert(out@ =~= old(out)@ + window_line(*m));
}

fn push_snapshot_line(out: &mut Vec<char>, m: &GlobalHistoryCaptureMetrics)
    ensures
        final(out)@ == old(out)@ + snapshot_line(*m),
{
    reveal(snapshot_line);
    let retained = m.league_retained_records.saturating_add(m.league_competition_retained_records).saturating_add(
        m.match_retained_records,
    );
    extend_str(out, "snapshot: retained_records=");
    push_decimal(out, retained as u128);
    extend_str(out, " bytes=");
    push_decimal(out, m.snapshot_bytes as u128);
    extend_str(out, " largest_record_bytes=");
    push_decimal(out, m.largest_record_bytes as u128);
    extend_str(out, "\n");
    assert(out@ =~= old(out)@ + snapshot_line(*m));
}

fn push_capture(out: &mut Vec<char>, index: usize, m: &GlobalHistoryCaptureMetrics)
    ensures
        final(out)@ == old(out)@ + capture_text(index, *m),
{
    push_capture_line(out, index, m);
    push_leagues_line(out, m);
    push_competitions_line(out, m);
    push_matches_line(out, m);
    push_window_line(out, m);
    push_snapshot_line(out, m);
    assert(out@ =~= old(out)@ + capture_text(index, *m));
}

/// The four request lines, one per line, the last without a line break.
pub open spec fn requests_text(r: GlobalHistoryResponseMetrics) -> Seq<char> {
    metric_text("GET_LEAGUES"@, r.get_leagues) + "\n"@ + metric_text(
        "GET_LEAGUE_COMPETITION"@,
        r.get_league_competition,
    ) + "\n"@ + metric_text("GET_TEAM_SCHEDULE"@, r.get_team_schedule) + "\n"@ + metric_text(
        "GET_TEAM_HISTORY"@,
        r.get_team_history,
    )
}

fn push_requests(out: &mut Vec<char>, responses: &GlobalHistoryResponseMetrics)
    ensures
        final(out)@ == old(out)@ + requests_text(*responses),
{
    push_metric(out, "GET_LEAGUES", &responses.get_leagues);
    extend_str(out, "\n");
    push_metric(out, "GET_LEAGUE_COMPETITION", &responses.get_league_competition);
    extend_str(out, "\n");
    push_metric(out, "GET_TEAM_SCHEDULE", &responses.get_team_schedule);
    extend_str(out, "\n");
    push_metric(out, "GET_TEAM_HISTORY", &responses.get_team_history);
    assert(out@ =~= old(out)@ + requests_text(*responses));
}

/// The report: a title line, the capture lines (or `capture: not ready`
/// before the first capture), then the request lines.
pub open spec fn robustness_report_text(
    capture: Option<(usize, GlobalHistoryCaptureMetrics)>,
    responses: GlobalHistoryResponseMetrics,
) -> Seq<char> {
    "=== GLOBAL HISTORY ROBUSTNESS ===\n"@ + match capture {
        Some((index, m)) => capture_text(index, m),
        None => "capture: not ready\n"@,
    } + requests_text(responses)
}

/// Writes the robustness report from the last capture and the last answers.
pub fn global_history_robustness_report(
    capture: Option<(usize, &GlobalHistoryCaptureMetrics)>,
    responses: &GlobalHistoryResponseMetrics,
) -> (r: String)
    ensures
        r@ == robustness_report_text(
            match capture {
                Some((index, m)) => Some((index, *m)),
                None => None,
            },
            *responses,
        ),
{
    let mut out: Vec<char> = Vec::new();
    extend_str(&mut out, "=== GLOBAL HISTORY ROBUSTNESS ===\n");
    match capture {
        Some((index, m)) => push_capture(&mut out, index, m),
        None => extend_str(&mut out, "capture: not ready\n"),
    }
    push_requests(&mut out, responses);
    string_of(&out)
}

} // verus!
