use doplan::dashboard::{feature_priority, priority_or_default, read_priority};
use doplan::state::ProjectState;
use doplan::workspace::{
    ai_commands_dir, doplan_dir, dot_doplan_dir, join, validate_content, validate_write_path,
    ValidationError,
};

#[test]
fn test_validate_content() {
    // Valid content
    assert!(validate_content("This is a long enough string", 10).is_ok());

    // Too short
    assert!(validate_content("Short", 10).is_err());

    // Empty string
    assert!(validate_content("", 10).is_err());

    // Whitespace only
    assert!(validate_content("   ", 10).is_err());

    // Exactly min_length
    assert!(validate_content("1234567890", 10).is_ok());
}

#[test]
fn content_length_is_counted_in_bytes_after_trimming() {
    assert_eq!(
        validate_content("  abc  ", 4),
        Err(ValidationError::ContentTooShort { length: 7, min_length: 4 })
    );
    assert!(validate_content("éé", 4).is_ok());
    assert!(validate_content("ééé", 7).is_err());
}

#[test]
fn write_path_checks() {
    assert_eq!(validate_write_path(true, true), Err(ValidationError::IsDirectory));
    assert_eq!(validate_write_path(true, false), Err(ValidationError::IsDirectory));
    assert_eq!(validate_write_path(false, false), Err(ValidationError::ParentMissing));
    assert_eq!(validate_write_path(false, true), Ok(()));
}

#[test]
fn plan_directories_under_root() {
    assert_eq!(doplan_dir("/home/me/proj"), "/home/me/proj/doplan");
    assert_eq!(dot_doplan_dir("/home/me/proj/"), "/home/me/proj/.doplan");
    assert_eq!(ai_commands_dir("proj"), "proj/.doplan/ai/commands");
    assert_eq!(join("", "x"), "x");
}

#[test]
fn new_state_knows_nothing() {
    let s = ProjectState::new();
    assert!(s.project_name.is_none());
    assert!(s.idea.is_none());
    assert!(s.tech_stack.is_none());
    assert!(s.features.is_none());
    assert!(s.phases.is_none());
    assert!(s.improvements.is_none());
    assert!(s.notes.is_none());
}

#[test]
fn priority_is_read_from_the_record() {
    assert_eq!(read_priority("{\"priority\": \"high\", \"status\": \"x\"}"), Some("high".to_string()));
    assert_eq!(read_priority("{\"priority\": 3}"), None);
    assert_eq!(read_priority("not json"), None);
    assert_eq!(read_priority("[\"priority\"]"), None);
    assert_eq!(priority_or_default(None), "medium");
    assert_eq!(priority_or_default(Some("low".to_string())), "low");
    assert_eq!(feature_priority(&Some("{\"priority\":\"low\"}".to_string())), "low");
    assert_eq!(feature_priority(&Some("{broken".to_string())), "medium");
    assert_eq!(feature_priority(&None), "medium");
}
