use doplan::dashboard::{compute_dashboard, FeatureSource};
use doplan::progress::{
    compute_feature_progress, compute_overall_progress, compute_phase_progress, derive_status,
    group_into_phases, progress_percent, FeatureProgress, TaskStats, FULL_PERCENT,
};
use doplan::render::{format_percent, generate_progress_bar, render_markdown, task_summary};
use doplan::task::Status;

fn stats(total: usize, completed: usize, in_progress: usize, not_started: usize, blocked: usize) -> TaskStats {
    TaskStats { total, completed, in_progress, not_started, blocked }
}

fn feature(name: &str, phase: &str, s: TaskStats) -> FeatureProgress {
    FeatureProgress::new(name.to_string(), phase.to_string(), "medium".to_string(), s)
}

#[test]
fn zero_tasks_give_zero_percent_not_started() {
    let (p, s) = compute_feature_progress(&stats(0, 0, 0, 0, 0));
    assert_eq!(p, 0);
    assert_eq!(s, Status::NotStarted);
}

#[test]
fn percent_is_rounded_down_and_bounded() {
    assert_eq!(progress_percent(&stats(3, 2, 0, 1, 0)), 6666);
    assert_eq!(progress_percent(&stats(4, 1, 0, 3, 0)), 2500);
    assert_eq!(progress_percent(&stats(7, 7, 0, 0, 0)), FULL_PERCENT);
    assert_eq!(progress_percent(&stats(7, 0, 0, 7, 0)), 0);
}

#[test]
fn status_follows_the_priority_order() {
    assert_eq!(derive_status(FULL_PERCENT, &stats(2, 2, 0, 0, 0)), Status::Completed);
    assert_eq!(derive_status(5000, &stats(2, 1, 1, 0, 0)), Status::InProgress);
    assert_eq!(derive_status(0, &stats(2, 0, 1, 0, 1)), Status::InProgress);
    assert_eq!(derive_status(0, &stats(2, 0, 0, 1, 1)), Status::Blocked);
    assert_eq!(derive_status(5000, &stats(2, 1, 0, 1, 0)), Status::NotStarted);
}

#[test]
fn phase_progress_is_the_unweighted_mean() {
    // One feature with one task done, one with 1 of 50 tasks done.
    let fs = vec![
        feature("a", "p", stats(1, 1, 0, 0, 0)),
        feature("b", "p", stats(50, 1, 0, 49, 0)),
    ];
    assert_eq!(fs[1].progress, 200);
    assert_eq!(compute_phase_progress(&fs), (10000 + 200) / 2);
    assert_eq!(compute_phase_progress(&Vec::new()), 0);
}

#[test]
fn features_with_equal_percents_give_equal_phase_progress() {
    let a = vec![feature("a", "p", stats(2, 1, 0, 1, 0)), feature("b", "p", stats(4, 4, 0, 0, 0))];
    let b = vec![feature("a", "p", stats(100, 50, 0, 50, 0)), feature("b", "p", stats(1, 1, 0, 0, 0))];
    assert_eq!(compute_phase_progress(&a), compute_phase_progress(&b));
    assert_eq!(compute_phase_progress(&a), 7500);
}

#[test]
fn features_are_grouped_by_consecutive_phase() {
    let fs = vec![
        feature("a", "setup", stats(1, 1, 0, 0, 0)),
        feature("b", "setup", stats(2, 0, 0, 2, 0)),
        feature("c", "auth", stats(2, 1, 1, 0, 0)),
    ];
    let phases = group_into_phases(&fs);
    assert_eq!(phases.len(), 2);
    assert_eq!(phases[0].phase_name, "setup");
    assert_eq!(phases[0].features.len(), 2);
    assert_eq!(phases[0].progress, 5000);
    assert_eq!(phases[1].phase_name, "auth");
    assert_eq!(phases[1].progress, 5000);
    assert_eq!(compute_overall_progress(&phases), 5000);
    assert_eq!(phases[0].status(), Status::NotStarted);
    assert_eq!(phases[1].status(), Status::InProgress);
    let counts = phases[0].feature_counts();
    assert_eq!(counts, stats(2, 1, 0, 1, 0));
}

#[test]
fn phase_of_completed_features_is_completed() {
    let fs = vec![feature("a", "p", stats(1, 1, 0, 0, 0)), feature("b", "p", stats(3, 3, 0, 0, 0))];
    let phases = group_into_phases(&fs);
    assert_eq!(phases[0].progress, FULL_PERCENT);
    assert_eq!(phases[0].status(), Status::Completed);
}

#[test]
fn phase_with_only_blocked_work_is_blocked() {
    let fs = vec![feature("a", "p", stats(1, 0, 0, 0, 1)), feature("b", "p", stats(1, 0, 0, 1, 0))];
    let phases = group_into_phases(&fs);
    assert_eq!(phases[0].status(), Status::Blocked);
}

#[test]
fn overall_progress_of_nothing_is_zero() {
    assert_eq!(compute_overall_progress(&Vec::new()), 0);
}

fn sources() -> Vec<FeatureSource> {
    vec![
        FeatureSource {
            phase_dir: "01-setup".to_string(),
            feature_dir: "01-repo".to_string(),
            tasks_text: "#### Task 1\n- **Status**: [x] Completed\n#### Task 2\n- **Status**: [x] Blocked\n".to_string(),
            progress_record: Some("{\"priority\": \"high\", \"progress\": 10}".to_string()),
        },
        FeatureSource {
            phase_dir: "02-user-auth".to_string(),
            feature_dir: "01-login-form".to_string(),
            tasks_text: "#### Task 1\n- **Status**: [x] In Progress\n".to_string(),
            progress_record: None,
        },
    ]
}

#[test]
fn dashboard_is_computed_from_sources() {
    let d = compute_dashboard(&Some("Demo".to_string()), &sources());
    assert_eq!(d.project_name, "Demo");
    assert_eq!(d.phases.len(), 2);
    assert_eq!(d.phases[0].phase_name, "setup");
    assert_eq!(d.phases[0].features[0].feature_name, "repo");
    assert_eq!(d.phases[0].features[0].priority, "high");
    assert_eq!(d.phases[0].features[0].progress, 5000);
    assert_eq!(d.phases[1].phase_name, "user auth");
    assert_eq!(d.phases[1].features[0].feature_name, "login form");
    assert_eq!(d.phases[1].features[0].priority, "medium");
    assert_eq!(d.phases[1].features[0].status, Status::InProgress);
    assert_eq!(d.overall_progress, 2500);
}

#[test]
fn untitled_project_has_default_name() {
    let d = compute_dashboard(&None, &Vec::new());
    assert_eq!(d.project_name, "Untitled Project");
    assert_eq!(d.overall_progress, 0);
    assert_eq!(d.phases.len(), 0);
}

#[test]
fn recomputing_gives_identical_records() {
    let a = compute_dashboard(&Some("Demo".to_string()), &sources());
    let b = compute_dashboard(&Some("Demo".to_string()), &sources());
    assert_eq!(a.overall_progress, b.overall_progress);
    assert_eq!(a.phases.len(), b.phases.len());
    for (p, q) in a.phases.iter().zip(b.phases.iter()) {
        assert_eq!(p.phase_name, q.phase_name);
        assert_eq!(p.progress, q.progress);
        for (f, g) in p.features.iter().zip(q.features.iter()) {
            assert_eq!(f.feature_name, g.feature_name);
            assert_eq!(f.priority, g.priority);
            assert_eq!(f.progress, g.progress);
            assert_eq!(f.status, g.status);
            assert_eq!(f.tasks, g.tasks);
        }
    }
    assert_eq!(render_markdown(&a, "T"), render_markdown(&b, "T"));
}

#[test]
fn progress_bar_is_thirty_cells_rounded_down() {
    assert_eq!(generate_progress_bar(0), format!("[{}]", "░".repeat(30)));
    assert_eq!(generate_progress_bar(FULL_PERCENT), format!("[{}]", "█".repeat(30)));
    assert_eq!(generate_progress_bar(3333), format!("[{}{}]", "█".repeat(9), "░".repeat(21)));
    assert_eq!(generate_progress_bar(5000), format!("[{}{}]", "█".repeat(15), "░".repeat(15)));
}

#[test]
fn percent_has_one_decimal() {
    assert_eq!(format_percent(3333), "33.3");
    assert_eq!(format_percent(6666), "66.7");
    assert_eq!(format_percent(0), "0.0");
    assert_eq!(format_percent(FULL_PERCENT), "100.0");
    assert_eq!(format_percent(5), "0.1");
}

#[test]
fn task_summary_sums_all_features() {
    let d = compute_dashboard(&Some("Demo".to_string()), &sources());
    let t = task_summary(&d);
    assert_eq!(t.total, 3);
    assert_eq!(t.completed, 1);
    assert_eq!(t.in_progress, 1);
    assert_eq!(t.not_started, 0);
    assert_eq!(t.blocked, 1);
}

#[test]
fn markdown_snapshot_is_rendered() {
    let d = compute_dashboard(&Some("Demo".to_string()), &sources());
    let md = render_markdown(&d, "2024-01-01 00:00:00 UTC");
    let expected = format!(
        "# Project Dashboard\n\n**Project:** Demo\n\n**Last Updated:** 2024-01-01 00:00:00 UTC\n\n---\n\n\
## Overall Progress\n\n**25.0%** Complete\n\n[{}{}]\n\n## Phase Progress\n\n\
### setup\n\n**50.0%** Complete\n\n[{}{}]\n\n#### Features\n\n- **repo** (high) - 50.0% - blocked\n\n\
### user auth\n\n**0.0%** Complete\n\n[{}]\n\n#### Features\n\n- **login form** (medium) - 0.0% - in_progress\n\n\
## Task Summary\n\n- **Total Tasks:** 3\n- **Completed:** 1\n- **In Progress:** 1\n- **Not Started:** 0\n- **Blocked:** 1\n\n",
        "█".repeat(7),
        "░".repeat(23),
        "█".repeat(15),
        "░".repeat(15),
        "░".repeat(30)
    );
    assert_eq!(md, expected);
}
