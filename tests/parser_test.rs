use doplan::progress::{compute_feature_progress, count_tasks, TaskStats};
use doplan::task::{parse_tasks, Status};

const THREE_TASKS: &str = "# Tasks\n\n**Feature:** Login\n\n---\n\n## Tasks\n\n\
#### Task 1: Setup\n\
- **Status**: [ ] Not Started | [ ] In Progress | [x] Completed | [ ] Blocked\n\
- **Priority**: High\n\
- **Estimated Time**: 1 hour\n\n\
#### Task 2: Implementation\n\
- **Status**: [ ] Not Started | [x] In Progress | [ ] Completed | [ ] Blocked\n\
- **Estimated Time**: 4 hours\n\n\
#### Task 3: Testing\n\
- **Status**: [x] Not Started | [ ] In Progress | [ ] Completed | [ ] Blocked\n\
- **Estimated Time**: 2 hours\n\n\
## Progress Tracking\n\n- Completed: 0\n";

#[test]
fn three_tasks_give_stats_percent_and_status() {
    let stats = count_tasks(THREE_TASKS);
    assert_eq!(
        stats,
        TaskStats { total: 3, completed: 1, in_progress: 1, not_started: 1, blocked: 0 }
    );
    let (percent, status) = compute_feature_progress(&stats);
    assert_eq!(percent, 3333);
    assert_eq!(status, Status::InProgress);
}

#[test]
fn three_tasks_parse_names_statuses_and_efforts() {
    let tasks = parse_tasks(THREE_TASKS);
    assert_eq!(tasks.len(), 3);
    assert_eq!(tasks[0].name, "1: Setup");
    assert_eq!(tasks[0].status, Status::Completed);
    assert_eq!(tasks[0].estimated_effort, "1 hour");
    assert_eq!(tasks[1].name, "2: Implementation");
    assert_eq!(tasks[1].status, Status::InProgress);
    assert_eq!(tasks[1].estimated_effort, "4 hours");
    assert_eq!(tasks[2].name, "3: Testing");
    assert_eq!(tasks[2].status, Status::NotStarted);
    assert_eq!(tasks[2].estimated_effort, "2 hours");
}

#[test]
fn one_record_per_heading_including_the_last() {
    let text = "#### Task A\n#### Task B\nsome prose\n#### Task C";
    let tasks = parse_tasks(text);
    assert_eq!(tasks.len(), 3);
    assert_eq!(tasks[2].name, "C");
    assert_eq!(tasks[2].status, Status::NotStarted);
    assert_eq!(tasks[2].estimated_effort, "Unknown");
}

#[test]
fn no_heading_means_no_task() {
    assert_eq!(parse_tasks("").len(), 0);
    assert_eq!(parse_tasks("- **Status**: [x] Completed\n").len(), 0);
    let stats = count_tasks("just prose\n");
    assert_eq!(stats.total, 0);
}

#[test]
fn heading_must_start_the_line() {
    let tasks = parse_tasks("  #### Task indented\n#### Task real\n");
    assert_eq!(tasks.len(), 1);
    assert_eq!(tasks[0].name, "real");
}

#[test]
fn check_letter_is_case_insensitive() {
    let text = "#### Task 1\n- **Status**: [X] Completed\n#### Task 2\n- **Status**: [X] Blocked\n";
    let tasks = parse_tasks(text);
    assert_eq!(tasks[0].status, Status::Completed);
    assert_eq!(tasks[1].status, Status::Blocked);
}

#[test]
fn completed_wins_over_other_checked_boxes() {
    let text = "#### Task 1\n- **Status**: [x] In Progress | [x] Completed | [x] Blocked\n";
    assert_eq!(parse_tasks(text)[0].status, Status::Completed);
    let text = "#### Task 1\n- **Status**: [x] Blocked | [x] In Progress\n";
    assert_eq!(parse_tasks(text)[0].status, Status::InProgress);
}

#[test]
fn unrecognized_status_line_resets_to_not_started() {
    let text = "#### Task 1\n- **Status**: [x] Completed\n- **Status**: done\n";
    assert_eq!(parse_tasks(text)[0].status, Status::NotStarted);
}

#[test]
fn effort_is_the_text_after_the_first_colon() {
    let text = "#### Task 1\n- **Estimated Time**:   3 days  \n#### Task 2\n- **Estimated Time**: 10:30 am\n#### Task 3\n- **Estimated Time** none\n";
    let tasks = parse_tasks(text);
    assert_eq!(tasks[0].estimated_effort, "3 days");
    assert_eq!(tasks[1].estimated_effort, "10:30 am");
    assert_eq!(tasks[2].estimated_effort, "Unknown");
}

#[test]
fn status_field_outside_a_task_is_ignored() {
    let text = "- **Status**: [x] Completed\n#### Task 1\n";
    let tasks = parse_tasks(text);
    assert_eq!(tasks.len(), 1);
    assert_eq!(tasks[0].status, Status::NotStarted);
}

#[test]
fn blocked_tasks_are_counted() {
    let text = "#### Task 1\n- **Status**: [x] Blocked\n#### Task 2\n- **Status**: [x] Completed\n";
    let stats = count_tasks(text);
    assert_eq!(
        stats,
        TaskStats { total: 2, completed: 1, in_progress: 0, not_started: 0, blocked: 1 }
    );
}

#[test]
fn windows_line_endings_are_trimmed_from_values() {
    let text = "#### Task One\r\n- **Estimated Time**: 5 min\r\n";
    let tasks = parse_tasks(text);
    assert_eq!(tasks[0].name, "One");
    assert_eq!(tasks[0].estimated_effort, "5 min");
}
