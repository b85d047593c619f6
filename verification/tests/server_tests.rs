use rustle::server::{
    build_global_stats, pick_winner, plan_score_updates, rejection_message, rollover_decision, validate_score,
    GlobalStats, RolloverAction, ScoreAction, ScorePayload, ScoreRejection, TeamData, TeamRow,
};
use rustle::teams::{all_team_names, is_valid_team};

fn payload(id: &str, team: &str, delta: i32) -> ScorePayload {
    ScorePayload { player_id: id.to_string(), team: team.to_string(), points_delta: delta }
}

fn row(name: &str, points: i64, players: i64, yt: i64) -> TeamRow {
    TeamRow { name: name.to_string(), points, players, yesterday_total: yt }
}

#[test]
fn valid_teams() {
    for t in ["red", "orange", "yellow", "green", "blue", "purple"] {
        assert!(is_valid_team(t));
    }
    assert!(!is_valid_team("Red"));
    assert!(!is_valid_team("pink"));
    assert_eq!(all_team_names(), vec!["red", "orange", "yellow", "green", "blue", "purple"]);
}

#[test]
fn score_validation() {
    assert_eq!(validate_score(&payload("test-api-player", "green", 5)), Ok("green".to_string()));
    assert_eq!(validate_score(&payload("p_1", "GREEN", -5)), Ok("green".to_string()));
    assert_eq!(validate_score(&payload("", "green", 5)), Err(ScoreRejection::InvalidPlayerId));
    assert_eq!(validate_score(&payload(&"a".repeat(65), "green", 5)), Err(ScoreRejection::InvalidPlayerId));
    assert_eq!(validate_score(&payload(&"a".repeat(64), "green", 5)), Ok("green".to_string()));
    // 32 two-byte characters fit in 64 bytes; 33 do not.
    assert_eq!(validate_score(&payload(&"é".repeat(32), "red", 0)), Ok("red".to_string()));
    assert_eq!(validate_score(&payload(&"é".repeat(33), "red", 0)), Err(ScoreRejection::InvalidPlayerId));
    assert_eq!(validate_score(&payload("p 1", "green", 5)), Err(ScoreRejection::InvalidPlayerIdCharacters));
    assert_eq!(validate_score(&payload("p.1", "green", 5)), Err(ScoreRejection::InvalidPlayerIdCharacters));
    assert_eq!(validate_score(&payload("p1", "pink", 5)), Err(ScoreRejection::InvalidTeam));
    assert_eq!(validate_score(&payload("p1", "green", 11)), Err(ScoreRejection::PointsOutOfRange));
    assert_eq!(validate_score(&payload("p1", "green", -6)), Err(ScoreRejection::PointsOutOfRange));
    assert_eq!(rejection_message(ScoreRejection::InvalidTeam), "Invalid team");
    assert_eq!(rejection_message(ScoreRejection::PointsOutOfRange), "Points delta out of range");
    assert_eq!(rejection_message(ScoreRejection::InvalidPlayerId), "Invalid player_id");
    assert_eq!(rejection_message(ScoreRejection::InvalidPlayerIdCharacters), "Invalid player_id characters");
}

fn describe(a: &ScoreAction) -> String {
    match a {
        ScoreAction::LeaveTeam(t) => format!("leave {}", t),
        ScoreAction::RecordPlayer(t) => format!("record {}", t),
        ScoreAction::JoinTeam(t) => format!("join {}", t),
        ScoreAction::AddPoints(t, d) => format!("add {} {}", t, d),
    }
}

#[test]
fn score_update_plans() {
    let green = "green".to_string();
    let plan: Vec<String> = plan_score_updates(None, &green, 5).iter().map(describe).collect();
    assert_eq!(plan, vec!["record green", "join green", "add green 5"]);
    let plan: Vec<String> = plan_score_updates(Some("red".to_string()), &green, 2).iter().map(describe).collect();
    assert_eq!(plan, vec!["leave red", "record green", "join green", "add green 2"]);
    let plan: Vec<String> = plan_score_updates(Some("green".to_string()), &green, -1).iter().map(describe).collect();
    assert_eq!(plan, vec!["add green -1"]);
}

#[test]
fn global_stats_from_rows() {
    let rows = vec![
        row("red", 10, 2, 3),
        row("mystery", 99, 9, 9),
        row("purple", -4, 1, 0),
        row("red", 12, 3, 4),
    ];
    let s: GlobalStats = build_global_stats(Some(("2024-05-01".to_string(), "blue".to_string())), &rows, "x".to_string(), 7);
    assert_eq!(s.red, TeamData { points: 12, players: 3, yesterday_total: 4 });
    assert_eq!(s.purple, TeamData { points: -4, players: 1, yesterday_total: 0 });
    assert_eq!(s.green, TeamData::zero());
    assert_eq!(s.current_date, "2024-05-01");
    assert_eq!(s.yesterday_winner, "blue");
    assert_eq!(s.server_utc_timestamp, 7);
    let s = build_global_stats(None, &vec![], "2024-05-02".to_string(), 8);
    assert_eq!(s.yesterday_winner, "none");
    assert_eq!(s.current_date, "2024-05-02");
    assert_eq!(s.orange, TeamData { points: 0, players: 0, yesterday_total: 0 });
}

#[test]
fn rollover_decisions() {
    let today = "2024-05-02".to_string();
    let yesterday = "2024-05-01".to_string();
    assert_eq!(rollover_decision(&Some(today.clone()), &today, &None), RolloverAction::Wait);
    assert_eq!(rollover_decision(&None, &today, &Some(today.clone())), RolloverAction::MarkDone);
    assert_eq!(rollover_decision(&Some(yesterday.clone()), &today, &Some(yesterday.clone())), RolloverAction::Roll);
    assert_eq!(rollover_decision(&None, &today, &None), RolloverAction::Roll);
}

#[test]
fn winner_of_the_day() {
    assert_eq!(pick_winner(&vec![]), None);
    let rows = vec![row("red", 3, 0, 0), row("blue", 7, 0, 0), row("green", 7, 0, 0), row("purple", -2, 0, 0)];
    assert_eq!(pick_winner(&rows), Some("blue".to_string()));
}

#[test]
fn test_get_global_stats() {
    // a freshly seeded database: six teams at zero, yesterday's winner "none"
    let rows: Vec<TeamRow> = all_team_names().iter().map(|t| row(t, 0, 0, 0)).collect();
    let stats = build_global_stats(Some(("2024-01-01".to_string(), "none".to_string())), &rows, "2024-01-01".to_string(), 1);
    assert_eq!(stats.yesterday_winner, "none");
}

#[test]
fn test_submit_score_api() {
    let p = payload("test-api-player", "green", 5);
    let team = validate_score(&p).unwrap();
    let plan: Vec<String> = plan_score_updates(None, &team, p.points_delta).iter().map(describe).collect();
    assert_eq!(plan, vec!["record green", "join green", "add green 5"]);
}

#[test]
fn one_letter_ids_are_accepted() {
    assert_eq!(validate_score(&payload("p", "blue", 0)), Ok("blue".to_string()));
    assert_eq!(validate_score(&payload("7", "blue", 0)), Ok("blue".to_string()));
}
