use doplan::recommend::{
    analyze_and_recommend, collect_open_tasks, priority_rank, rank_keys, select_first_best,
    status_rank, summarize_open_tasks, FeatureContext, NextStep, OpenTask,
};
use doplan::task::Status;

fn task(priority: &str, name: &str, status: Status) -> OpenTask {
    OpenTask {
        feature_path: format!("doplan/plan/01-p/{}", name),
        phase_name: "p".to_string(),
        feature_name: name.to_string(),
        priority: priority.to_string(),
        task_name: name.to_string(),
        status,
        estimated_time: "1 hour".to_string(),
        progress: 2550,
    }
}

fn chosen(tasks: &Vec<OpenTask>) -> Option<String> {
    match analyze_and_recommend(tasks) {
        NextStep::AllComplete => None,
        NextStep::Work(rec) => Some(rec.task_name),
    }
}

#[test]
fn high_in_progress_beats_low_not_started_in_any_order() {
    let a = vec![task("low", "low", Status::NotStarted), task("high", "high", Status::InProgress)];
    let b = vec![task("high", "high", Status::InProgress), task("low", "low", Status::NotStarted)];
    assert_eq!(chosen(&a), Some("high".to_string()));
    assert_eq!(chosen(&b), Some("high".to_string()));
}

#[test]
fn no_open_task_means_all_complete() {
    assert!(matches!(analyze_and_recommend(&Vec::new()), NextStep::AllComplete));
}

#[test]
fn status_breaks_priority_ties_and_order_breaks_full_ties() {
    let tasks = vec![
        task("medium", "blocked", Status::Blocked),
        task("medium", "first", Status::NotStarted),
        task("medium", "second", Status::NotStarted),
    ];
    assert_eq!(chosen(&tasks), Some("first".to_string()));
}

#[test]
fn unknown_priority_comes_last_and_case_is_ignored() {
    let tasks = vec![task("urgent", "u", Status::InProgress), task("LOW", "l", Status::Blocked)];
    assert_eq!(chosen(&tasks), Some("l".to_string()));
    let tasks = vec![task("Medium", "m", Status::NotStarted), task("HIGH", "h", Status::Blocked)];
    assert_eq!(chosen(&tasks), Some("h".to_string()));
}

#[test]
fn ranks() {
    assert_eq!(priority_rank("high"), 0);
    assert_eq!(priority_rank("medium"), 1);
    assert_eq!(priority_rank("low"), 2);
    assert_eq!(priority_rank("High"), 3);
    assert_eq!(priority_rank(""), 3);
    assert_eq!(status_rank(Status::InProgress), 0);
    assert_eq!(status_rank(Status::NotStarted), 1);
    assert_eq!(status_rank(Status::Blocked), 2);
    assert_eq!(status_rank(Status::Completed), 3);
    let keys = rank_keys(&vec![task("HIGH", "x", Status::Blocked)]);
    assert_eq!(keys, vec![(0, 2)]);
}

#[test]
fn first_best_is_the_first_minimum() {
    assert_eq!(select_first_best(&vec![]), None);
    assert_eq!(select_first_best(&vec![(1, 1), (0, 2), (0, 1), (0, 1)]), Some(2));
    assert_eq!(select_first_best(&vec![(3, 3)]), Some(0));
}

#[test]
fn recommendation_phrases() {
    let rec = |s: Status| match analyze_and_recommend(&vec![task("high", "Build", s)]) {
        NextStep::Work(r) => r,
        NextStep::AllComplete => panic!("a task was given"),
    };
    let r = rec(Status::InProgress);
    assert_eq!(r.action, "Continue working on: Build");
    assert_eq!(r.reason, "Priority: high | Status: In Progress | Progress: 26%");
    assert_eq!(r.estimated_effort, "1 hour");
    assert_eq!(r.feature_path, "doplan/plan/01-p/Build");
    assert_eq!(r.index, 0);
    assert_eq!(rec(Status::NotStarted).action, "Start: Build");
    assert_eq!(rec(Status::Blocked).action, "Unblock: Build");
    assert_eq!(rec(Status::Completed).action, "Work on: Build");
}

#[test]
fn open_tasks_keep_only_incomplete_ones_with_context() {
    let ctx = FeatureContext {
        feature_path: "plan/01-a/01-b".to_string(),
        phase_name: "a".to_string(),
        feature_name: "b".to_string(),
        priority: "low".to_string(),
        progress: 5000,
    };
    let text = "#### Task 1: done\n- **Status**: [x] Completed\n#### Task 2: next\n- **Estimated Time**: 2h\n";
    let mut tasks = vec![task("high", "earlier", Status::Blocked)];
    collect_open_tasks(text, &ctx, &mut tasks);
    assert_eq!(tasks.len(), 2);
    assert_eq!(tasks[0].task_name, "earlier");
    assert_eq!(tasks[1].task_name, "2: next");
    assert_eq!(tasks[1].status, Status::NotStarted);
    assert_eq!(tasks[1].estimated_time, "2h");
    assert_eq!(tasks[1].priority, "low");
    assert_eq!(tasks[1].feature_path, "plan/01-a/01-b");
    assert_eq!(tasks[1].progress, 5000);
}

#[test]
fn open_task_summary_counts() {
    let tasks = vec![
        task("High", "a", Status::InProgress),
        task("high", "b", Status::Blocked),
        task("low", "c", Status::NotStarted),
    ];
    let s = summarize_open_tasks(&tasks);
    assert_eq!(s.total, 3);
    assert_eq!(s.high_priority, 2);
    assert_eq!(s.in_progress, 1);
    assert_eq!(s.not_started, 1);
    assert_eq!(s.blocked, 1);
}
