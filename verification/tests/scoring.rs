use std::collections::hash_map::DefaultHasher;
use std::collections::{HashMap, HashSet};
use std::hash::{Hash, Hasher};

use rhythm_arena::builtins::{builtins, builtins_checked, leaderboard_templates, script_context, team_limit, StoredResult, ChartWeight, ResultRow, TeamMember};
use rhythm_arena::error::ResponseError;
use rhythm_arena::results::ResultStatus;
use rhythm_arena::lifecycle::Lifecycle;
use rhythm_arena::model::{LeaderboardKind, LeaderboardVisibility};
use rhythm_arena::scoring::{
    builtin_templates, check_script_size, leaderboard_kind, next_script_version, process_failed,
    plan_snapshots, public_snapshots_only, rank_entries, SnapshotEntries, StoredSnapshot, script_source, should_publish, snapshot_meta, sort_entries,
    source_hash, template_source, validate_output, ScriptEntry, ScriptOutput,
};

fn entry(id: i64, score: i64, tie_breakers: Vec<i64>) -> ScriptEntry {
    ScriptEntry { id, score, tie_breakers, breakdown: None }
}

fn result(id: i64, registration_id: i64, chart_id: i64, score: i64, accuracy_millionths: i64) -> ResultRow {
    ResultRow { id, registration_id, chart_id, score, accuracy_millionths }
}

fn chart(id: i64, weight_millionths: i64) -> ChartWeight {
    ChartWeight { id, weight_millionths }
}

fn member(registration_id: i64) -> TeamMember {
    TeamMember { team_id: 100, registration_id }
}

fn score(output: &ScriptOutput, registration_id: i64) -> i64 {
    output.individual.iter().find(|entry| entry.id == registration_id).unwrap().score
}

fn tie(output: &ScriptOutput, registration_id: i64) -> Vec<i64> {
    output.individual.iter().find(|entry| entry.id == registration_id).unwrap().tie_breakers.clone()
}

#[test]
fn templates_expose_rank_entrypoint() {
    for template in builtin_templates() {
        assert!(template.source.contains("rank(context)"));
    }
}

#[test]
fn competition_ranking_skips_after_tie() {
    let ranked = rank_entries(
        vec![entry(1, 100, vec![]), entry(2, 90, vec![]), entry(3, 90, vec![]), entry(4, 80, vec![])],
        &HashMap::new(),
    );
    assert_eq!(ranked.iter().map(|r| r.rank).collect::<Vec<_>>(), vec![1, 2, 2, 4]);
}

#[test]
fn builtin_templates_match_golden_scores() {
    let templates = builtins(
        &[
            result(1, 1, 10, 100, 900),
            result(2, 1, 10, 120, 850),
            result(3, 1, 11, 50, 990),
            result(4, 2, 10, 110, 950),
        ],
        &[chart(10, 2_000_000), chart(11, 500_000)],
        &[member(1), member(2)],
        1,
    );

    let best = &templates.best_per_chart;
    assert_eq!((score(best, 1), score(best, 2)), (170, 110));
    assert_eq!(best.team[0].score, 280);

    let all = &templates.all_results;
    assert_eq!((score(all, 1), score(all, 2)), (270, 110));
    assert_eq!(all.team[0].score, 380);

    let points = &templates.rank_points;
    assert_eq!((score(points, 1), score(points, 2)), (2_000, 950));
    assert_eq!(points.team[0].score, 2_950);

    let weighted = &templates.weighted_top_n;
    assert_eq!((score(weighted, 1), score(weighted, 2)), (265, 220));
    assert_eq!(weighted.team[0].score, 265);
}

#[test]
fn script_output_rejects_unknown_and_duplicate_ids() {
    let known_registrations = HashSet::from([1]);
    let known_teams = HashSet::from([100]);
    let base = entry(2, 10, vec![]);
    let unknown = ScriptOutput { individual: vec![base.clone()], team: vec![] };
    assert!(validate_output(&unknown, &known_registrations, &known_teams).is_err());

    let duplicate = ScriptOutput {
        individual: vec![ScriptEntry { id: 1, ..base.clone() }, ScriptEntry { id: 1, ..base }],
        team: vec![],
    };
    assert!(validate_output(&duplicate, &known_registrations, &known_teams).is_err());
}

#[test]
fn script_output_error_texts() {
    let regs = HashSet::from([1, 2]);
    let teams = HashSet::from([100]);
    let unknown_team = ScriptOutput { individual: vec![], team: vec![entry(7, 1, vec![])] };
    match validate_output(&unknown_team, &regs, &teams) {
        Err(ResponseError::BadRequest(m)) => assert_eq!(m, "script returned unknown team id 7"),
        other => panic!("unexpected {:?}", other),
    }
    let duplicate = ScriptOutput { individual: vec![entry(2, 1, vec![]), entry(2, 3, vec![])], team: vec![] };
    match validate_output(&duplicate, &regs, &teams) {
        Err(ResponseError::BadRequest(m)) => assert_eq!(m, "script returned duplicate individual id 2"),
        other => panic!("unexpected {:?}", other),
    }
    let many = ScriptOutput { individual: vec![entry(1, 1, vec![0; 17])], team: vec![] };
    match validate_output(&many, &regs, &teams) {
        Err(ResponseError::BadRequest(m)) => assert_eq!(m, "too many tie breakers"),
        other => panic!("unexpected {:?}", other),
    }
    let fine = ScriptOutput { individual: vec![entry(1, 1, vec![0; 16]), entry(2, 1, vec![])], team: vec![entry(100, 3, vec![])] };
    assert!(validate_output(&fine, &regs, &teams).is_ok());
}

#[test]
fn ranking_orders_by_score_then_tie_breakers_then_id() {
    let mut names = HashMap::new();
    names.insert(3, "Carol".to_owned());
    let ranked = rank_entries(
        vec![entry(5, 90, vec![1, 2]), entry(3, 90, vec![1, 3]), entry(4, 95, vec![]), entry(2, 90, vec![1, 2])],
        &names,
    );
    assert_eq!(ranked.iter().map(|r| r.id).collect::<Vec<_>>(), vec![4, 3, 2, 5]);
    assert_eq!(ranked.iter().map(|r| r.rank).collect::<Vec<_>>(), vec![1, 2, 3, 3]);
    assert_eq!(ranked[1].name, "Carol");
    assert_eq!(ranked[0].name, "#4");
    assert_eq!(ranked[3].name, "#5");
}

#[test]
fn sorting_keeps_every_entry() {
    let sorted = sort_entries(vec![entry(1, 5, vec![]), entry(2, 9, vec![2]), entry(3, 9, vec![1])]);
    assert_eq!(sorted.iter().map(|e| e.id).collect::<Vec<_>>(), vec![2, 3, 1]);
}

#[test]
fn source_hash_matches_std_string_hash() {
    for source in ["", "pub fn rank(context) { context.templates.all_results }", "测试 ✓"] {
        let mut hasher = DefaultHasher::new();
        source.hash(&mut hasher);
        assert_eq!(source_hash(source), format!("{:016x}", hasher.finish()));
    }
    assert_eq!(source_hash("abc").len(), 16);
}

#[test]
fn template_sources_by_key() {
    assert_eq!(template_source("rank_points"), Some("pub fn rank(context) { context.templates.rank_points }"));
    assert_eq!(template_source("nope"), None);
    assert_eq!(script_source(None, "all_results").unwrap(), "pub fn rank(context) { context.templates.all_results }");
    assert_eq!(script_source(Some("mine".to_owned()), "nope").unwrap(), "mine");
    match script_source(None, "nope") {
        Err(ResponseError::BadRequest(m)) => assert_eq!(m, "unknown scoring template"),
        other => panic!("unexpected {:?}", other),
    }
}

#[test]
fn publication_follows_visibility() {
    assert!(should_publish(LeaderboardVisibility::Live, Lifecycle::Running));
    assert!(!should_publish(LeaderboardVisibility::Frozen, Lifecycle::Archived));
    assert!(!should_publish(LeaderboardVisibility::AfterEnd, Lifecycle::Review));
    assert!(should_publish(LeaderboardVisibility::AfterEnd, Lifecycle::Finished));
    assert!(public_snapshots_only(None, true, LeaderboardVisibility::Frozen));
    assert!(!public_snapshots_only(Some(true), true, LeaderboardVisibility::Frozen));
    assert!(public_snapshots_only(Some(true), false, LeaderboardVisibility::Frozen));
    assert!(!public_snapshots_only(None, false, LeaderboardVisibility::Live));
}

#[test]
fn leaderboard_kind_names() {
    assert_eq!(leaderboard_kind("individual").unwrap(), LeaderboardKind::Individual);
    assert_eq!(leaderboard_kind("team").unwrap(), LeaderboardKind::Team);
    match leaderboard_kind("teams") {
        Err(ResponseError::BadRequest(m)) => assert_eq!(m, "leaderboard kind must be individual or team"),
        other => panic!("unexpected {:?}", other),
    }
}

#[test]
fn script_limits_and_versions() {
    assert!(check_script_size(&"x".repeat(64 * 1024)).is_ok());
    match check_script_size(&"x".repeat(64 * 1024 + 1)) {
        Err(ResponseError::BadRequest(m)) => assert_eq!(m, "script exceeds 64 KiB"),
        other => panic!("unexpected {:?}", other),
    }
    assert_eq!(next_script_version(None), 1);
    assert_eq!(next_script_version(Some(4)), 5);
    match process_failed("  boom \n") {
        ResponseError::BadRequest(m) => assert_eq!(m, "scoring process failed: boom"),
        other => panic!("unexpected {:?}", other),
    }
    let failed = ResponseError::BadRequest("scoring script exceeded 5 seconds".to_owned());
    let meta = snapshot_meta(LeaderboardKind::Team, 4, Some(&failed), true);
    assert!(meta.stale && meta.public_snapshot);
    assert_eq!(meta.error.as_deref(), Some("bad request: scoring script exceeded 5 seconds"));
    let fresh = snapshot_meta(LeaderboardKind::Individual, 4, None, false);
    assert!(!fresh.stale && fresh.error.is_none());
}

#[test]
fn best_per_chart_keeps_the_unbeaten_result() {
    let out = builtins(
        &[result(9, 1, 10, 100, 900), result(3, 1, 10, 100, 900), result(5, 1, 10, 100, 800)],
        &[],
        &[],
        1,
    );
    assert_eq!(score(&out.best_per_chart, 1), 100);
    assert_eq!(tie(&out.best_per_chart, 1), vec![900]);
    assert_eq!(out.best_per_chart.individual.len(), 1);
    assert!(out.best_per_chart.team.is_empty());
    assert_eq!(score(&out.all_results, 1), 300);
    assert_eq!(tie(&out.all_results, 1), vec![2600]);
}

#[test]
fn rank_points_share_ranks_and_floor_at_zero() {
    let mut rows = Vec::new();
    for r in 0..22 {
        rows.push(result(r, r, 10, 1000 - r, 0));
    }
    rows.push(result(99, 99, 10, 1000, 0));
    let out = builtins(&rows, &[], &[], 1);
    assert_eq!(score(&out.rank_points, 0), 1000);
    assert_eq!(score(&out.rank_points, 99), 1000);
    assert_eq!(score(&out.rank_points, 1), 900);
    assert_eq!(score(&out.rank_points, 20), 0);
    assert_eq!(score(&out.rank_points, 21), 0);
    assert_eq!(tie(&out.rank_points, 1), vec![999]);
}

#[test]
fn weighted_scores_saturate_and_round_toward_zero() {
    let out = builtins(
        &[result(1, 1, 10, i64::MAX, 0), result(2, 2, 11, 3, 0), result(3, 3, 12, 7, 0)],
        &[chart(10, 3_000_000), chart(11, -500_000), chart(12, 5), chart(12, 1_500_000)],
        &[],
        1,
    );
    assert_eq!(score(&out.weighted_top_n, 1), i64::MAX / 1_000_000);
    assert_eq!(score(&out.weighted_top_n, 2), -1);
    assert_eq!(score(&out.weighted_top_n, 3), 10);
}

#[test]
fn team_top_n_counts_best_members() {
    let members = [
        TeamMember { team_id: 7, registration_id: 1 },
        TeamMember { team_id: 7, registration_id: 2 },
        TeamMember { team_id: 7, registration_id: 3 },
        TeamMember { team_id: 8, registration_id: 4 },
    ];
    let rows = [result(1, 1, 10, 50, 1), result(2, 2, 10, 70, 2), result(3, 3, 10, 60, 4), result(4, 4, 10, 5, 8)];
    let out = builtins(&rows, &[], &members, team_limit(2));
    let team7 = out.weighted_top_n.team.iter().find(|t| t.id == 7).unwrap();
    assert_eq!(team7.score, 130);
    assert_eq!(team7.tie_breakers, vec![6]);
    let all7 = out.all_results.team.iter().find(|t| t.id == 7).unwrap();
    assert_eq!(all7.score, 180);
    assert_eq!(all7.tie_breakers, vec![7]);
    assert_eq!(out.all_results.team.len(), 2);
    assert_eq!(team_limit(0), 1);
    assert_eq!(team_limit(-3), 1);
    assert_eq!(team_limit(4), 4);
}

fn stored(kind: LeaderboardKind, stale: bool, public_snapshot: bool, computed_at: i64, tag: i64) -> StoredSnapshot {
    StoredSnapshot { kind, stale, public_snapshot, computed_at, entries: serde_json::Value::from(tag) }
}

#[test]
fn failed_recomputation_keeps_last_public_snapshot() {
    let previous = vec![
        stored(LeaderboardKind::Individual, false, true, 10, 1),
        stored(LeaderboardKind::Individual, false, false, 30, 2),
        stored(LeaderboardKind::Individual, true, true, 40, 3),
        stored(LeaderboardKind::Individual, false, true, 20, 4),
        stored(LeaderboardKind::Team, false, false, 50, 5),
    ];
    let failure = Err(ResponseError::BadRequest("scoring script exceeded 5 seconds".to_owned()));
    let (individual, team) = plan_snapshots(failure, &previous, 7, &HashMap::new(), &HashMap::new(), false);
    assert!(individual.meta.stale && team.meta.stale);
    assert_eq!((individual.meta.script_version_id, team.meta.script_version_id), (7, 7));
    assert_eq!(individual.meta.error.as_deref(), Some("bad request: scoring script exceeded 5 seconds"));
    match individual.entries {
        SnapshotEntries::Carried(Some(v)) => assert_eq!(v, serde_json::Value::from(4)),
        _ => panic!("carried entries expected"),
    }
    assert!(matches!(team.entries, SnapshotEntries::Carried(None)));

    let output = ScriptOutput { individual: vec![entry(1, 5, vec![]), entry(2, 9, vec![])], team: vec![] };
    let (individual, team) = plan_snapshots(Ok(output), &previous, 7, &HashMap::new(), &HashMap::new(), true);
    assert!(!individual.meta.stale && individual.meta.public_snapshot && individual.meta.error.is_none());
    match individual.entries {
        SnapshotEntries::Ranked(v) => assert_eq!(v.iter().map(|r| r.id).collect::<Vec<_>>(), vec![2, 1]),
        _ => panic!("ranked entries expected"),
    }
    assert!(matches!(team.entries, SnapshotEntries::Ranked(ref v) if v.is_empty()));
}

#[test]
fn checked_templates_refuse_overflowing_sums() {
    let rows = [result(1, 1, 10, i64::MAX, 0), result(2, 1, 11, i64::MAX, 0)];
    assert!(builtins_checked(&rows, &[], &[], 1).is_none());
    let fine = [result(1, 1, 10, 7, 0)];
    let out = builtins_checked(&fine, &[], &[], 1).unwrap();
    assert_eq!(score(&out.rank_points, 1), 1000);
    assert_eq!(tie(&out.rank_points, 1), vec![7]);
}

#[test]
fn only_approved_results_reach_the_templates() {
    let stored = |row, status| StoredResult { row, status };
    let results = [
        stored(result(1, 1, 10, 100, 900), ResultStatus::Approved),
        stored(result(2, 1, 10, 500, 900), ResultStatus::Pending),
        stored(result(3, 2, 10, 400, 900), ResultStatus::Rejected),
        stored(result(4, 1, 11, 50, 990), ResultStatus::Voided),
    ];
    let out = leaderboard_templates(&results, &[], &[], 1).unwrap();
    assert_eq!(out.all_results.individual.len(), 1);
    assert_eq!(score(&out.all_results, 1), 100);
    assert_eq!(score(&out.best_per_chart, 1), 100);
    let approved_only = [stored(result(1, 1, 10, 100, 900), ResultStatus::Approved)];
    let again = leaderboard_templates(&approved_only, &[], &[], 1).unwrap();
    assert_eq!(score(&again.rank_points, 1), score(&out.rank_points, 1));
}

#[test]
fn sorting_keeps_full_ties_in_given_order() {
    let first = ScriptEntry { id: 1, score: 5, tie_breakers: vec![2], breakdown: Some(serde_json::Value::from("first")) };
    let second = ScriptEntry { id: 1, score: 5, tie_breakers: vec![2], breakdown: Some(serde_json::Value::from("second")) };
    let sorted = sort_entries(vec![first, entry(2, 6, vec![]), second]);
    assert_eq!(sorted.iter().map(|e| e.id).collect::<Vec<_>>(), vec![2, 1, 1]);
    assert_eq!(sorted[1].breakdown, Some(serde_json::Value::from("first")));
    assert_eq!(sorted[2].breakdown, Some(serde_json::Value::from("second")));
}

#[test]
fn unapproved_results_never_change_snapshots() {
    let stored = |row, status| StoredResult { row, status };
    let store_a = [
        stored(result(1, 1, 10, 100, 900), ResultStatus::Approved),
        stored(result(2, 2, 10, 300, 950), ResultStatus::Pending),
        stored(result(3, 2, 10, 200, 900), ResultStatus::Approved),
        stored(result(4, 1, 11, 999, 999), ResultStatus::Voided),
    ];
    let store_b = [
        stored(result(1, 1, 10, 100, 900), ResultStatus::Approved),
        stored(result(3, 2, 10, 200, 900), ResultStatus::Approved),
        stored(result(5, 1, 10, 800, 990), ResultStatus::Rejected),
    ];
    let a = script_context(&store_a, &[], &[member(1), member(2)], 1).unwrap();
    let b = script_context(&store_b, &[], &[member(1), member(2)], 1).unwrap();
    assert_eq!(a.results.iter().map(|r| r.id).collect::<Vec<_>>(), vec![1, 3]);
    assert_eq!(b.results.iter().map(|r| r.id).collect::<Vec<_>>(), vec![1, 3]);
    assert_eq!(score(&a.templates.rank_points, 2), 1000);
    assert_eq!(score(&a.templates.rank_points, 1), 950);
    let mut names = HashMap::new();
    names.insert(1, "Alice".to_owned());
    names.insert(2, "Bob".to_owned());
    let run = |templates: &ScriptOutput| Ok(templates.clone());
    let (ia, ta) = plan_snapshots(run(&a.templates.all_results), &vec![], 3, &names, &HashMap::new(), true);
    let (ib, tb) = plan_snapshots(run(&b.templates.all_results), &vec![], 3, &names, &HashMap::new(), true);
    let rows = |entries: &SnapshotEntries| match entries {
        SnapshotEntries::Ranked(v) => v.iter().map(|r| (r.id, r.name.clone(), r.rank, r.score, r.tie_breakers.clone())).collect::<Vec<_>>(),
        SnapshotEntries::Carried(_) => panic!("ranked entries expected"),
    };
    assert_eq!(rows(&ia.entries), vec![(2, "Bob".to_owned(), 1, 200, vec![900]), (1, "Alice".to_owned(), 2, 100, vec![900])]);
    assert_eq!(rows(&ia.entries), rows(&ib.entries));
    assert_eq!(rows(&ta.entries), vec![(100, "#100".to_owned(), 1, 300, vec![1800])]);
    assert_eq!(rows(&ta.entries), rows(&tb.entries));
}
