use tfm2_editor::responses::{PlayerListEntry, StaffListEntry, TeamListEntry};
use tfm2_editor::teams::{sort_player_list, sort_staff_list, sort_team_list};

fn team(id: usize, name: &str, league_id: usize, is_player_team: bool) -> TeamListEntry {
    TeamListEntry {
        id,
        display_name: name.to_string(),
        manager_name: String::new(),
        league_id,
        is_player_team,
        roster_size: 0,
        staff_count: 0,
        roster_rating: None,
        merchandise_facility_grade: String::new(),
        stadium_grade: String::new(),
        training_facility_grade: String::new(),
        stadium_name: String::new(),
        stadium_capacity: String::new(),
        total_home_attendance: String::new(),
        home_match_count: String::new(),
        total_entrance_income: String::new(),
        popularity: String::new(),
        fan_expectation: String::new(),
        fan_satisfaction: String::new(),
        fan_count: String::new(),
        fan_momentum: String::new(),
        gaming_house_level: String::new(),
        welfare: String::new(),
        total_balance: String::new(),
        transfer_budget: String::new(),
        salary_budget: String::new(),
    }
}

fn ids(teams: &[TeamListEntry]) -> Vec<usize> {
    teams.iter().map(|t| t.id).collect()
}

#[test]
fn team_list_puts_player_team_first_then_names_without_case() {
    let sorted = sort_team_list(vec![
        team(1, "zeta", 1, false),
        team(2, "Alpha", 2, false),
        team(3, "Omega", 1, true),
        team(4, "beta", 1, false),
    ]);
    assert_eq!(ids(&sorted), vec![3, 2, 4, 1]);
}

#[test]
fn team_list_breaks_name_ties_by_league_then_id() {
    let sorted = sort_team_list(vec![
        team(9, "Same", 2, false),
        team(7, "same", 1, false),
        team(5, "SAME", 2, false),
    ]);
    assert_eq!(ids(&sorted), vec![7, 5, 9]);
}

#[test]
fn team_list_sort_of_nothing_is_nothing() {
    assert!(sort_team_list(Vec::new()).is_empty());
    assert_eq!(ids(&sort_team_list(vec![team(4, "Solo", 0, true)])), vec![4]);
}


fn player(id: usize, name: &str) -> PlayerListEntry {
    PlayerListEntry {
        id,
        name: name.to_string(),
        age: String::new(),
        team: String::new(),
        region: String::new(),
        position: String::new(),
        actual_rating: String::new(),
        potential_rating: String::new(),
        actual_potential: String::new(),
        annual_salary: String::new(),
        transfer_fee: String::new(),
        contract_end_date: String::new(),
        last_hit: String::new(),
        skill_avoid: String::new(),
        skill_hit: String::new(),
        control_speed: String::new(),
        positioning: String::new(),
        judgement: String::new(),
        mental: String::new(),
        concentration: String::new(),
        order: String::new(),
        roaming: String::new(),
        aggressive: String::new(),
        ego: String::new(),
    }
}

fn staff(id: usize, name: &str) -> StaffListEntry {
    StaffListEntry {
        id,
        name: name.to_string(),
        age: String::new(),
        team: String::new(),
        role: String::new(),
        banpick: String::new(),
        strategy: String::new(),
        negotiation: String::new(),
        judge_ability: String::new(),
        judge_potential: String::new(),
        feedback: String::new(),
        power_analysis: String::new(),
        control_coaching: String::new(),
        judgment_coaching: String::new(),
        mental_coaching: String::new(),
        annual_salary: String::new(),
        contract_end_date: String::new(),
        communication: String::new(),
    }
}

#[test]
fn player_and_staff_lists_go_by_name_without_case_then_id() {
    let players = sort_player_list(vec![player(5, "zed"), player(2, "Ann"), player(9, "ann"), player(1, "Bob")]);
    assert_eq!(players.iter().map(|p| p.id).collect::<Vec<_>>(), vec![2, 9, 1, 5]);
    let staffs = sort_staff_list(vec![staff(4, "coach"), staff(3, "Analyst"), staff(1, "COACH")]);
    assert_eq!(staffs.iter().map(|s| s.id).collect::<Vec<_>>(), vec![3, 1, 4]);
}
