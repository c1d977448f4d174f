use doplan::generators::{
    api_keys_from, detect_api_keys, detect_service, detect_service_from_cargo_dep,
    detect_service_from_dependency, extract_design_info, generate_improvements,
};
use doplan::state::Feature;

fn pair(a: &str, b: &str) -> Option<(String, String)> {
    Some((a.to_string(), b.to_string()))
}

#[test]
fn services_from_tech_stack() {
    assert_eq!(detect_service("PostgreSQL 15"), pair("database", "postgresql"));
    assert_eq!(detect_service("MongoDB Atlas"), pair("database", "mongodb"));
    assert_eq!(detect_service("Redis"), pair("cache", "redis"));
    assert_eq!(detect_service("Docker"), pair("deployment", "docker"));
    assert_eq!(detect_service("Vercel"), pair("deployment", "vercel"));
    assert_eq!(detect_service("Railway"), pair("deployment", "railway"));
    assert_eq!(detect_service("React"), None);
}

#[test]
fn services_from_dependencies() {
    assert_eq!(detect_service_from_dependency("pg"), pair("database", "postgresql"));
    assert_eq!(detect_service_from_dependency("Mongoose"), pair("database", "mongodb"));
    assert_eq!(detect_service_from_dependency("ioredis"), pair("cache", "redis"));
    assert_eq!(detect_service_from_dependency("@aws-sdk/client-s3"), pair("cloud", "aws"));
    assert_eq!(detect_service_from_dependency("@Azure/storage"), pair("cloud", "azure"));
    assert_eq!(detect_service_from_dependency("react"), None);
}

#[test]
fn services_from_cargo_lines() {
    assert_eq!(detect_service_from_cargo_dep("sqlx = \"0.7\""), pair("database", "postgresql"));
    assert_eq!(detect_service_from_cargo_dep("REDIS = \"0.23\""), pair("cache", "redis"));
    assert_eq!(detect_service_from_cargo_dep("serde = \"1\""), None);
}

#[test]
fn api_keys_in_order() {
    assert_eq!(
        detect_api_keys("AWS with Postgres"),
        Some(vec![
            "AWS_ACCESS_KEY_ID".to_string(),
            "AWS_SECRET_ACCESS_KEY".to_string(),
            "DATABASE_URL".to_string()
        ])
    );
    assert_eq!(detect_api_keys("Redis and Vercel"), Some(vec!["REDIS_URL".to_string(), "VERCEL_TOKEN".to_string()]));
    assert_eq!(detect_api_keys("mongodb"), Some(vec!["MONGODB_URI".to_string()]));
    assert_eq!(detect_api_keys("Svelte"), None);
    assert_eq!(api_keys_from("AWS"), None);
}

#[test]
fn design_items_are_read_by_section() {
    let plan = "# Feature Plan\n\n### Pages\n- Home Page\n- _to be defined_\n-   About\n\n\
### Sections\n- Hero\n### Components\n- Button\n  - Nested\n### Cards/UI Elements\n- Price card\n-\n\
## Other\n- Ignored\n";
    let (mut pages, mut sections, mut components, mut cards) = (vec!["Old".to_string()], vec![], vec![], vec![]);
    extract_design_info(plan, &mut pages, &mut sections, &mut components, &mut cards);
    assert_eq!(pages, vec!["Old", "Home Page", "About"]);
    assert_eq!(sections, vec!["Hero"]);
    assert_eq!(components, vec!["Button", "- Nested"]);
    assert_eq!(cards, vec!["Price card"]);
}

fn features(n: usize) -> Vec<Feature> {
    (0..n)
        .map(|i| Feature { name: format!("f{}", i), description: String::new(), priority: "low".to_string() })
        .collect()
}

#[test]
fn improvements_depend_on_idea_and_feature_count() {
    let r = generate_improvements("A USER portal with Data export", &features(6));
    assert_eq!(r.len(), 7);
    assert_eq!(r[0], "Consider implementing user authentication and authorization");
    assert_eq!(r[1], "Consider prioritizing features - start with MVP and iterate");
    assert_eq!(r[2], "Plan your data model and storage strategy early");
    assert_eq!(r[6], "Document your API contracts early for better team collaboration");
    let r = generate_improvements("a game", &features(5));
    assert_eq!(r.len(), 4);
    assert_eq!(r[0], "Set up proper error handling and logging from the start");
}
