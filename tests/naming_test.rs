use doplan::dashboard::locate_feature;
use doplan::naming::{extract_id_from_path, extract_name_from_path, sanitize_for_branch, sanitize_name, slug_from};

#[test]
fn ordinal_prefix_is_stripped_and_dashes_become_spaces() {
    assert_eq!(extract_name_from_path("02-user-auth"), "user auth");
    assert_eq!(extract_name_from_path("01-setup"), "setup");
    assert_eq!(extract_name_from_path("123-a-b-c"), "a b c");
}

#[test]
fn names_without_ordinal_are_kept_less_leading_dashes() {
    assert_eq!(extract_name_from_path("notes"), "notes");
    assert_eq!(extract_name_from_path("--draft-plan"), "draft-plan");
    assert_eq!(extract_name_from_path("v2"), "v2");
    assert_eq!(extract_name_from_path("12"), "12");
    assert_eq!(extract_name_from_path(""), "");
}

#[test]
fn directory_slugs() {
    assert_eq!(sanitize_name("User Auth_v1.0"), "user-auth-v1-0");
    assert_eq!(sanitize_name("  Hello, World! "), "hello-world");
    assert_eq!(sanitize_name("Café Menu"), "café-menu");
    assert_eq!(sanitize_for_branch("Login Form v1.2"), "login-form-v12");
    assert_eq!(slug_from("--a b--", false), "a-b");
}

#[test]
fn ordinal_of_a_directory() {
    assert_eq!(extract_id_from_path("02-user-auth"), "02");
    assert_eq!(extract_id_from_path("setup"), "setup");
    assert_eq!(extract_id_from_path("-x"), "");
}

#[test]
fn feature_location_needs_exactly_two_components() {
    assert_eq!(locate_feature("01-setup/02-repo"), Some(("01-setup".to_string(), "02-repo".to_string())));
    assert_eq!(locate_feature("01-setup"), None);
    assert_eq!(locate_feature("a/b/c"), None);
}
